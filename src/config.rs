//! Static configuration, loaded once by the caller and passed in.
use vstd::prelude::*;

verus! {

/// All settings of the service.
#[derive(Clone, Debug)]
pub struct Settings {
    pub system: System,
    pub notifications: Option<Notifications>,
    pub gitops: Option<Vec<GitopsConfig>>,
}

/// Scheduling and storage settings.
#[derive(Clone, Debug)]
pub struct System {
    pub schedule: String,
    pub data_dir: String,
    pub run_at_startup: bool,
}

/// One repository that remediation may push to.
#[derive(Clone, Debug)]
pub struct GitopsConfig {
    pub name: String,
    pub repository_url: String,
    pub branch: String,
    pub commit_name: String,
    pub commit_email: String,
    /// Name of the environment variable that holds the access token.
    pub access_token_env_name: String,
    pub commit_message: String,
}

#[derive(Clone, Debug)]
pub struct Notifications {
    pub ntfy: Option<Ntfy>,
}

/// Endpoint of the notification service.
#[derive(Clone, Debug)]
pub struct Ntfy {
    pub url: String,
    pub topic: String,
    pub reminder: String,
    pub token: String,
}

pub open spec fn default_schedule_text() -> Seq<char> {
    seq!['0', ' ', '0', ' ', '*', '/', '2', ' ', '*', ' ', '*', ' ', '*']
}

pub open spec fn default_data_dir_text() -> Seq<char> {
    seq!['/', 'a', 'p', 'p', '/', 's', 'l', 'a', 'c', 'k', 'w', 'a', 't', 'c', 'h', '/', 'd', 'a', 't', 'a']
}

/// Every two hours, on the hour.
pub fn default_schedule() -> (r: String)
    ensures
        r@ == default_schedule_text(),
{
    let r = String::from_str("0 0 */2 * * *");
    proof {
        reveal_strlit("0 0 */2 * * *");
        assert(r@ =~= default_schedule_text());
    }
    r
}

pub fn default_data_dir() -> (r: String)
    ensures
        r@ == default_data_dir_text(),
{
    let r = String::from_str("/app/slackwatch/data");
    proof {
        reveal_strlit("/app/slackwatch/data");
        assert(r@ =~= default_data_dir_text());
    }
    r
}

pub fn default_run_at_startup() -> (r: bool)
    ensures
        !r,
{
    false
}

impl Default for System {
    fn default() -> (r: System)
        ensures
            r.schedule@ == default_schedule_text(),
            r.data_dir@ == default_data_dir_text(),
            !r.run_at_startup,
    {
        System {
            schedule: default_schedule(),
            data_dir: default_data_dir(),
            run_at_startup: default_run_at_startup(),
        }
    }
}

impl GitopsConfig {
    pub fn duplicate(&self) -> (r: GitopsConfig)
        ensures
            r == *self,
    {
        GitopsConfig {
            name: self.name.clone(),
            repository_url: self.repository_url.clone(),
            branch: self.branch.clone(),
            commit_name: self.commit_name.clone(),
            commit_email: self.commit_email.clone(),
            access_token_env_name: self.access_token_env_name.clone(),
            commit_message: self.commit_message.clone(),
        }
    }
}

impl Ntfy {
    pub fn duplicate(&self) -> (r: Ntfy)
        ensures
            r == *self,
    {
        Ntfy {
            url: self.url.clone(),
            topic: self.topic.clone(),
            reminder: self.reminder.clone(),
            token: self.token.clone(),
        }
    }
}

} // verus!
