//! Tag filtering and semantic-version comparison.
use vstd::prelude::*;
use crate::model::{UpdateStatus, Workload, copy_text};
use crate::text::{
    texts, pieces, strip_letters, text_lt, is_sorted_texts, lemma_pieces_nonempty, split_text,
    trim_leading_letters, sort_texts, lemma_text_lt_irreflexive, lemma_text_lt_total,
};

verus! {

/// `Regex::new` accepts the pattern.
pub uninterp spec fn regex_compiles(pattern: Seq<char>) -> bool;

/// The regex compiled from `pattern` matches somewhere in `text`.
pub uninterp spec fn regex_matches(pattern: Seq<char>, text: Seq<char>) -> bool;

/// `semver::Version::parse` accepts the text.
pub uninterp spec fn is_semver(text: Seq<char>) -> bool;

/// The version parsed from `a` is greater than the one parsed from `b`.
pub uninterp spec fn semver_gt(a: Seq<char>, b: Seq<char>) -> bool;

/// `regex::Regex`, carried opaquely inside [`TagPattern`].
#[verifier::external_type_specification]
#[verifier::external_body]
pub struct ExRegex(regex::Regex);

/// `semver::Version`, carried opaquely inside [`ParsedVersion`].
#[verifier::external_type_specification]
#[verifier::external_body]
pub struct ExVersion(semver::Version);

/// A compiled regular expression together with the text it was compiled from.
pub struct TagPattern {
    source: String,
    regex: regex::Regex,
}

impl View for TagPattern {
    type V = Seq<char>;

    closed spec fn view(&self) -> Seq<char> {
        self.source@
    }
}

impl TagPattern {
    /// Relies on `regex::Regex::new`: it succeeds exactly on valid patterns.
    #[verifier::external_body]
    pub(crate) fn compile(source: &str) -> (r: Option<TagPattern>)
        ensures
            r is Some <==> regex_compiles(source@),
            r matches Some(p) ==> p@ == source@,
    {
        regex::Regex::new(source).ok().map(|regex| TagPattern { source: source.to_string(), regex })
    }

    /// Relies on `regex::Regex::is_match`: a match anywhere in the text.
    #[verifier::external_body]
    pub(crate) fn is_match(&self, text: &str) -> (r: bool)
        ensures
            r == regex_matches(self@, text@),
    {
        self.regex.is_match(text)
    }
}

/// A parsed semantic version together with the text it was parsed from.
pub struct ParsedVersion {
    source: String,
    version: semver::Version,
}

impl View for ParsedVersion {
    type V = Seq<char>;

    closed spec fn view(&self) -> Seq<char> {
        self.source@
    }
}

pub open spec fn zero_text() -> Seq<char> {
    seq!['0', '.', '0', '.', '0']
}

impl ParsedVersion {
    /// Relies on `semver::Version::parse`, which refuses the empty text.
    #[verifier::external_body]
    pub(crate) fn parse(source: &str) -> (r: Option<ParsedVersion>)
        ensures
            r is Some <==> is_semver(source@),
            r matches Some(v) ==> v@ == source@,
            source@.len() == 0 ==> r is None,
    {
        semver::Version::parse(source).ok().map(|version| ParsedVersion { source: source.to_string(), version })
    }

    /// Relies on `semver::Version::new(0, 0, 0)`, the version written `0.0.0`.
    #[verifier::external_body]
    pub(crate) fn zero() -> (r: ParsedVersion)
        ensures
            r@ == zero_text(),
    {
        ParsedVersion { source: "0.0.0".to_string(), version: semver::Version::new(0, 0, 0) }
    }

    /// Relies on `semver::Version`'s `>`: semantic-version precedence.
    #[verifier::external_body]
    pub(crate) fn newer_than(&self, other: &ParsedVersion) -> (r: bool)
        ensures
            r == semver_gt(self@, other@),
    {
        self.version > other.version
    }
}

/// Why tags could not be evaluated.
#[derive(PartialEq, Eq, Structural, Clone, Copy, Debug)]
pub enum CompareError {
    /// A pattern of the active list is not a valid regular expression.
    InvalidPattern,
}

pub open spec fn opt_view(o: Option<String>) -> Option<Seq<char>> {
    match o {
        Some(s) => Some(s@),
        None => None,
    }
}

/// Every piece of the comma-separated list compiles.
pub open spec fn all_compile(list: Seq<char>) -> bool {
    forall|i: int| 0 <= i < pieces(list, ',').len() ==> regex_compiles(#[trigger] pieces(list, ',')[i])
}

/// The active pattern list compiles: allow if present, else deny.
pub open spec fn filters_compile(allow: Option<Seq<char>>, deny: Option<Seq<char>>) -> bool {
    match allow {
        Some(p) => all_compile(p),
        None => match deny {
            Some(p) => all_compile(p),
            None => true,
        },
    }
}

pub open spec fn matches_any(list: Seq<char>, t: Seq<char>) -> bool {
    exists|i: int| 0 <= i < pieces(list, ',').len() && regex_matches(#[trigger] pieces(list, ',')[i], t)
}

/// Whether the filter keeps tag `t`: allow patterns decide when present,
/// deny patterns only when allow is absent.
pub open spec fn keeps(allow: Option<Seq<char>>, deny: Option<Seq<char>>, t: Seq<char>) -> bool {
    match allow {
        Some(p) => matches_any(p, t),
        None => match deny {
            Some(p) => !matches_any(p, t),
            None => true,
        },
    }
}

/// The tags the filter keeps, in their order.
pub open spec fn kept(tags: Seq<Seq<char>>, allow: Option<Seq<char>>, deny: Option<Seq<char>>) -> Seq<Seq<char>>
    decreases tags.len(),
{
    if tags.len() == 0 {
        tags
    } else {
        let k = kept(tags.drop_last(), allow, deny);
        if keeps(allow, deny, tags.last()) {
            k.push(tags.last())
        } else {
            k
        }
    }
}

/// The version a current tag is compared against: its parse, or `0.0.0`.
pub open spec fn baseline(current: Seq<char>) -> Seq<char> {
    if is_semver(strip_letters(current)) {
        strip_letters(current)
    } else {
        zero_text()
    }
}

/// The tag parses once its leading letters are dropped, and is newer.
pub open spec fn is_newer_tag(tag: Seq<char>, current: Seq<char>) -> bool {
    is_semver(strip_letters(tag)) && semver_gt(strip_letters(tag), baseline(current))
}

/// The last tag in order that is newer than `current`.
pub open spec fn last_newer(tags: Seq<Seq<char>>, current: Seq<char>) -> Option<Seq<char>>
    decreases tags.len(),
{
    if tags.len() == 0 {
        None
    } else if is_newer_tag(tags.last(), current) {
        Some(tags.last())
    } else {
        last_newer(tags.drop_last(), current)
    }
}

/// The filter keeps the tag and it is newer than `current`.
pub open spec fn qualifies(
    allow: Option<Seq<char>>,
    deny: Option<Seq<char>>,
    current: Seq<char>,
    t: Seq<char>,
) -> bool {
    keeps(allow, deny, t) && is_newer_tag(t, current)
}

/// The last tag in order that the filter keeps and that is newer.
pub open spec fn last_qualifying(
    tags: Seq<Seq<char>>,
    allow: Option<Seq<char>>,
    deny: Option<Seq<char>>,
    current: Seq<char>,
) -> Option<Seq<char>>
    decreases tags.len(),
{
    if tags.len() == 0 {
        None
    } else if qualifies(allow, deny, current, tags.last()) {
        Some(tags.last())
    } else {
        last_qualifying(tags.drop_last(), allow, deny, current)
    }
}

/// Drops the leading characters of a tag that are not decimal digits.
pub fn strip_tag_lettings(tag: &str) -> (r: String)
    ensures
        r@ == strip_letters(tag@),
{
    trim_leading_letters(tag)
}

/// Compiles each piece of a comma-separated pattern list.
pub fn compile_patterns(list: &str) -> (r: Option<Vec<TagPattern>>)
    ensures
        r is Some <==> all_compile(list@),
        r matches Some(v) ==> v@.len() == pieces(list@, ',').len() && forall|i: int|
            0 <= i < v@.len() ==> #[trigger] v@[i]@ == pieces(list@, ',')[i],
{
    let parts = split_text(list, ',');
    let mut out: Vec<TagPattern> = Vec::new();
    let mut i: usize = 0;
    while i < parts.len()
        invariant
            texts(parts@) == pieces(list@, ','),
            0 <= i <= parts@.len(),
            out@.len() == i,
            forall|k: int| 0 <= k < i ==> #[trigger] out@[k]@ == pieces(list@, ',')[k],
            forall|k: int| 0 <= k < i ==> regex_compiles(#[trigger] pieces(list@, ',')[k]),
        decreases parts.len() - i,
    {
        assert(texts(parts@)[i as int] == parts@[i as int]@);
        match TagPattern::compile(parts[i].as_str()) {
            Some(p) => out.push(p),
            None => {
                return None;
            },
        }
        i += 1;
    }
    Some(out)
}

fn any_match(patterns: &Vec<TagPattern>, tag: &str) -> (r: bool)
    ensures
        r == exists|k: int| 0 <= k < patterns@.len() && regex_matches(#[trigger] patterns@[k]@, tag@),
{
    let mut k: usize = 0;
    while k < patterns.len()
        invariant
            0 <= k <= patterns@.len(),
            forall|j: int| 0 <= j < k ==> !regex_matches(#[trigger] patterns@[j]@, tag@),
        decreases patterns.len() - k,
    {
        if patterns[k].is_match(tag) {
            return true;
        }
        k += 1;
    }
    false
}

/// Keeps the tags that the allow list matches, or, without an allow list,
/// those that the deny list does not match; order is kept.
pub fn filter_tags(tags: &Vec<String>, allow: &Option<String>, deny: &Option<String>) -> (r: Result<
    Vec<String>,
    CompareError,
>)
    ensures
        r is Ok <==> filters_compile(opt_view(*allow), opt_view(*deny)),
        r matches Ok(v) ==> texts(v@) == kept(texts(tags@), opt_view(*allow), opt_view(*deny)),
        r matches Err(e) ==> e == CompareError::InvalidPattern,
{
    let ghost a = opt_view(*allow);
    let ghost d = opt_view(*deny);
    let ghost list: Seq<char>;
    // 0: keep all, 1: keep matches, 2: keep non-matches
    let mut mode: u8 = 0;
    let mut patterns: Vec<TagPattern> = Vec::new();
    match allow {
        Some(p) => {
            match compile_patterns(p.as_str()) {
                Some(v) => {
                    mode = 1;
                    patterns = v;
                    proof { list = p@; }
                },
                None => {
                    return Err(CompareError::InvalidPattern);
                },
            }
        },
        None => match deny {
            Some(p) => {
                match compile_patterns(p.as_str()) {
                    Some(v) => {
                        mode = 2;
                        patterns = v;
                        proof { list = p@; }
                    },
                    None => {
                        return Err(CompareError::InvalidPattern);
                    },
                }
            },
            None => {
                proof { list = Seq::empty(); }
            },
        },
    }
    assert(mode == 1 ==> a == Some(list));
    assert(mode == 2 ==> a is None && d == Some(list));
    assert(mode == 0 ==> a is None && d is None);
    let ghost all = texts(tags@);
    let mut out: Vec<String> = Vec::new();
    let mut i: usize = 0;
    while i < tags.len()
        invariant
            0 <= i <= tags@.len(),
            all == texts(tags@),
            mode <= 2,
            mode == 1 ==> a == Some(list),
            mode == 2 ==> a is None && d == Some(list),
            mode == 0 ==> a is None && d is None,
            mode != 0 ==> patterns@.len() == pieces(list, ',').len() && forall|k: int|
                0 <= k < patterns@.len() ==> #[trigger] patterns@[k]@ == pieces(list, ',')[k],
            texts(out@) == kept(all.subrange(0, i as int), a, d),
        decreases tags.len() - i,
    {
        let tag = &tags[i];
        let keep = if mode == 0 {
            true
        } else {
            let m = any_match(&patterns, tag.as_str());
            assert(m == matches_any(list, tag@)) by {
                if m {
                    let k = choose|k: int| 0 <= k < patterns@.len() && regex_matches(#[trigger] patterns@[k]@, tag@);
                    assert(regex_matches(pieces(list, ',')[k], tag@));
                }
                if matches_any(list, tag@) {
                    let k = choose|k: int| 0 <= k < pieces(list, ',').len() && regex_matches(#[trigger] pieces(list, ',')[k], tag@);
                    assert(regex_matches(patterns@[k]@, tag@));
                }
            }
            if mode == 1 { m } else { !m }
        };
        assert(keep == keeps(a, d, tag@));
        proof {
            let next = all.subrange(0, i + 1);
            assert(next.drop_last() =~= all.subrange(0, i as int));
            assert(next.last() == tag@);
        }
        if keep {
            out.push(tag.clone());
            proof {
                assert(texts(out@) =~= texts(out@.drop_last()).push(tag@));
            }
        }
        i += 1;
    }
    assert(all.subrange(0, tags@.len() as int) =~= all);
    Ok(out)
}

/// The last tag in order whose digits part parses as a version greater than
/// the current one; an unparsable current version counts as `0.0.0`.
pub fn select_latest(current: &str, tags: &Vec<String>) -> (r: Option<String>)
    ensures
        opt_view(r) == last_newer(texts(tags@), current@),
{
    let stripped = strip_tag_lettings(current);
    let base = match ParsedVersion::parse(stripped.as_str()) {
        Some(v) => v,
        None => ParsedVersion::zero(),
    };
    assert(base@ == baseline(current@));
    let ghost all = texts(tags@);
    let mut latest: Option<String> = None;
    let mut i: usize = 0;
    while i < tags.len()
        invariant
            0 <= i <= tags@.len(),
            all == texts(tags@),
            base@ == baseline(current@),
            opt_view(latest) == last_newer(all.subrange(0, i as int), current@),
        decreases tags.len() - i,
    {
        let tag = &tags[i];
        let digits = strip_tag_lettings(tag.as_str());
        let newer = match ParsedVersion::parse(digits.as_str()) {
            Some(v) => v.newer_than(&base),
            None => false,
        };
        proof {
            let next = all.subrange(0, i + 1);
            assert(next.drop_last() =~= all.subrange(0, i as int));
            assert(next.last() == tag@);
        }
        if newer {
            latest = Some(tag.clone());
        }
        i += 1;
    }
    assert(all.subrange(0, tags@.len() as int) =~= all);
    latest
}

/// Selecting among the kept tags is selecting the last qualifying tag.
pub proof fn lemma_kept_then_newer(
    tags: Seq<Seq<char>>,
    allow: Option<Seq<char>>,
    deny: Option<Seq<char>>,
    current: Seq<char>,
)
    ensures
        last_newer(kept(tags, allow, deny), current) == last_qualifying(tags, allow, deny, current),
    decreases tags.len(),
{
    if tags.len() > 0 {
        lemma_kept_then_newer(tags.drop_last(), allow, deny, current);
        let k = kept(tags.drop_last(), allow, deny);
        if keeps(allow, deny, tags.last()) {
            assert(k.push(tags.last()).drop_last() =~= k);
        }
    }
}

/// In ascending order the last qualifying tag is the greatest qualifying one.
pub proof fn lemma_last_qualifying_is_greatest(
    tags: Seq<Seq<char>>,
    allow: Option<Seq<char>>,
    deny: Option<Seq<char>>,
    current: Seq<char>,
)
    requires
        is_sorted_texts(tags),
    ensures
        last_qualifying(tags, allow, deny, current) is None <==> forall|i: int|
            0 <= i < tags.len() ==> !qualifies(allow, deny, current, #[trigger] tags[i]),
        last_qualifying(tags, allow, deny, current) matches Some(x) ==> {
            &&& qualifies(allow, deny, current, x)
            &&& exists|i: int| 0 <= i < tags.len() && #[trigger] tags[i] == x
            &&& forall|i: int|
                0 <= i < tags.len() && qualifies(allow, deny, current, #[trigger] tags[i])
                    ==> !text_lt(x, tags[i])
        },
    decreases tags.len(),
{
    if tags.len() > 0 {
        let dl = tags.drop_last();
        let n = tags.len() - 1;
        assert(is_sorted_texts(dl)) by {
            assert forall|i: int, j: int| 0 <= i < j < dl.len() implies !text_lt(#[trigger] dl[j], #[trigger] dl[i]) by {
                assert(dl[i] == tags[i] && dl[j] == tags[j]);
            }
        }
        lemma_last_qualifying_is_greatest(dl, allow, deny, current);
        if qualifies(allow, deny, current, tags.last()) {
            let x = tags.last();
            assert(tags[n] == x);
            assert forall|i: int|
                0 <= i < tags.len() && qualifies(allow, deny, current, #[trigger] tags[i]) implies !text_lt(x, tags[i]) by {
                if i == n {
                    lemma_text_lt_irreflexive(x);
                } else {
                    assert(!text_lt(tags[n], tags[i]));
                }
            }
        } else {
            assert forall|i: int| 0 <= i < dl.len() implies #[trigger] dl[i] == tags[i] by {}
            if let Some(x) = last_qualifying(dl, allow, deny, current) {
                let w = choose|i: int| 0 <= i < dl.len() && #[trigger] dl[i] == x;
                assert(tags[w] == x);
                assert forall|i: int|
                    0 <= i < tags.len() && qualifies(allow, deny, current, #[trigger] tags[i]) implies !text_lt(x, tags[i]) by {
                    if i < n {
                        assert(dl[i] == tags[i]);
                    }
                }
            } else {
                assert forall|i: int| 0 <= i < tags.len() implies !qualifies(allow, deny, current, #[trigger] tags[i]) by {
                    if i < n {
                        assert(dl[i] == tags[i]);
                    }
                }
            }
        }
    }
}

/// A tag of the list passes the filter and is newer than the current one.
pub open spec fn has_qualifying(tags: Seq<String>, w: Workload) -> bool {
    exists|i: int|
        0 <= i < tags.len() && qualifies(
            opt_view(w.include_pattern),
            opt_view(w.exclude_pattern),
            w.current_version@,
            #[trigger] tags[i]@,
        )
}

/// `w` is `workload` evaluated against `tags`: status and latest version set,
/// the rest kept. The latest version is the greatest qualifying tag.
pub open spec fn is_evaluation(workload: Workload, tags: Seq<String>, w: Workload) -> bool {
    let a = opt_view(workload.include_pattern);
    let d = opt_view(workload.exclude_pattern);
    let cur = workload.current_version@;
    &&& w.same_but_status(workload)
    &&& (w.update_available == UpdateStatus::Available <==> has_qualifying(tags, workload))
    &&& w.update_available == UpdateStatus::NotAvailable ==> w.latest_version@.len() == 0
    &&& w.update_available == UpdateStatus::Available ==> {
        &&& qualifies(a, d, cur, w.latest_version@)
        &&& exists|i: int| 0 <= i < tags.len() && #[trigger] tags[i]@ == w.latest_version@
        &&& forall|i: int|
            0 <= i < tags.len() && qualifies(a, d, cur, #[trigger] tags[i]@) ==> !text_lt(
                w.latest_version@,
                tags[i]@,
            )
    }
}

/// Compares a workload's current version with the resolved tags.
///
/// The tags are sorted, filtered by the workload's patterns, and the last
/// newer one in that order becomes the latest version: the greatest newer
/// tag in text order.
pub fn parse_tags(workload: &Workload, tags: Vec<String>) -> (r: Result<Workload, CompareError>)
    ensures
        r is Ok <==> filters_compile(opt_view(workload.include_pattern), opt_view(workload.exclude_pattern)),
        r matches Err(e) ==> e == CompareError::InvalidPattern,
        r matches Ok(w) ==> is_evaluation(*workload, tags@, w),
{
    let ghost a = opt_view(workload.include_pattern);
    let ghost d = opt_view(workload.exclude_pattern);
    let ghost cur = workload.current_version@;
    let ghost original = tags@;
    let mut sorted = tags;
    sort_texts(&mut sorted);
    let filtered = match filter_tags(&sorted, &workload.include_pattern, &workload.exclude_pattern) {
        Ok(v) => v,
        Err(e) => {
            return Err(e);
        },
    };
    let latest = select_latest(workload.current_version.as_str(), &filtered);
    proof {
        let st = texts(sorted@);
        lemma_kept_then_newer(st, a, d, cur);
        lemma_last_qualifying_is_greatest(st, a, d, cur);
        broadcast use vstd::seq_lib::group_to_multiset_ensures;
        assert forall|i: int| 0 <= i < original.len() implies st.contains(#[trigger] original[i]@) by {
            assert(original.to_multiset().count(original[i]) > 0);
            assert(sorted@.contains(original[i]));
            let j = choose|j: int| 0 <= j < sorted@.len() && sorted@[j] == original[i];
            assert(st[j] == original[i]@);
        }
        assert forall|j: int| 0 <= j < st.len() implies texts(original).contains(#[trigger] st[j]) by {
            assert(sorted@.to_multiset().count(sorted@[j]) > 0);
            assert(original.contains(sorted@[j]));
            let i = choose|i: int| 0 <= i < original.len() && original[i] == sorted@[j];
            assert(texts(original)[i] == st[j]);
        }
    }
    let (status, version) = match latest {
        Some(t) => (UpdateStatus::Available, t),
        None => (UpdateStatus::NotAvailable, String::new()),
    };
    let r = Workload {
        name: workload.name.clone(),
        exclude_pattern: copy_text(&workload.exclude_pattern),
        git_ops_repo: copy_text(&workload.git_ops_repo),
        include_pattern: copy_text(&workload.include_pattern),
        update_available: status,
        git_directory: copy_text(&workload.git_directory),
        image: workload.image.clone(),
        last_scanned: workload.last_scanned.clone(),
        namespace: workload.namespace.clone(),
        current_version: workload.current_version.clone(),
        latest_version: version,
    };
    proof {
        let st = texts(sorted@);
        if status == UpdateStatus::Available {
            let x = r.latest_version@;
            let w = choose|j: int| 0 <= j < st.len() && #[trigger] st[j] == x;
            assert(texts(original).contains(st[w]));
            let i = choose|i: int| 0 <= i < original.len() && #[trigger] texts(original)[i] == st[w];
            assert(original[i]@ == x);
            assert(has_qualifying(original, *workload)) by {
                assert(qualifies(a, d, cur, original[i]@));
            }
            assert forall|k: int|
                0 <= k < original.len() && qualifies(a, d, cur, #[trigger] original[k]@) implies !text_lt(x, original[k]@) by {
                assert(st.contains(original[k]@));
                let j = choose|j: int| 0 <= j < st.len() && #[trigger] st[j] == original[k]@;
                assert(qualifies(a, d, cur, st[j]));
            }
        } else {
            if has_qualifying(original, *workload) {
                let k = choose|k: int| 0 <= k < original.len() && qualifies(a, d, cur, #[trigger] original[k]@);
                assert(st.contains(original[k]@));
                let j = choose|j: int| 0 <= j < st.len() && #[trigger] st[j] == original[k]@;
                assert(qualifies(a, d, cur, st[j]));
            }
        }
    }
    Ok(r)
}

/// Filtering keeps only tags of the given list, and with an allow list the
/// deny list plays no part.
pub proof fn law_filter_sound(tags: Seq<Seq<char>>, allow: Option<Seq<char>>, deny: Option<Seq<char>>)
    ensures
        forall|t: Seq<char>| kept(tags, allow, deny).contains(t) ==> tags.contains(t),
        allow is Some ==> kept(tags, allow, deny) == kept(tags, allow, None),
    decreases tags.len(),
{
    if tags.len() > 0 {
        law_filter_sound(tags.drop_last(), allow, deny);
        let k = kept(tags.drop_last(), allow, deny);
        assert forall|t: Seq<char>| kept(tags, allow, deny).contains(t) implies tags.contains(t) by {
            if k.contains(t) {
                assert(tags.drop_last().contains(t));
                let i = choose|i: int| 0 <= i < tags.drop_last().len() && tags.drop_last()[i] == t;
                assert(tags[i] == t);
            } else {
                assert(kept(tags, allow, deny) == k.push(tags.last()));
                assert(t == tags.last());
                assert(tags[tags.len() - 1] == t);
            }
        }
    }
}

/// An unparsable current version counts as `0.0.0`: with no patterns, any
/// tag whose version is above `0.0.0` makes an update available.
pub proof fn law_unparsable_current_is_zero(workload: Workload, tags: Seq<String>, i: int)
    requires
        workload.include_pattern is None,
        workload.exclude_pattern is None,
        !is_semver(strip_letters(workload.current_version@)),
        0 <= i < tags.len(),
        is_semver(strip_letters(tags[i]@)),
        semver_gt(strip_letters(tags[i]@), zero_text()),
    ensures
        has_qualifying(tags, workload),
        forall|w: Workload| #[trigger] is_evaluation(workload, tags, w) ==> w.update_available == UpdateStatus::Available,
{
    assert(qualifies(None, None, workload.current_version@, tags[i]@));
}

/// The evaluation is a function of the workload and of the set of tags: two
/// evaluations against the same tags, in any order, agree.
pub proof fn law_evaluation_deterministic(
    workload: Workload,
    tags1: Seq<String>,
    tags2: Seq<String>,
    w1: Workload,
    w2: Workload,
)
    requires
        tags1.to_multiset() == tags2.to_multiset(),
        is_evaluation(workload, tags1, w1),
        is_evaluation(workload, tags2, w2),
    ensures
        w1.update_available == w2.update_available,
        w1.latest_version@ == w2.latest_version@,
        w1.same_but_status(w2),
{
    broadcast use vstd::seq_lib::group_to_multiset_ensures;
    let a = opt_view(workload.include_pattern);
    let d = opt_view(workload.exclude_pattern);
    let cur = workload.current_version@;
    assert forall|i: int| 0 <= i < tags1.len() implies tags2.contains(#[trigger] tags1[i]) by {
        assert(tags1.to_multiset().count(tags1[i]) > 0);
    }
    assert forall|j: int| 0 <= j < tags2.len() implies tags1.contains(#[trigger] tags2[j]) by {
        assert(tags2.to_multiset().count(tags2[j]) > 0);
    }
    if has_qualifying(tags1, workload) {
        let i = choose|i: int| 0 <= i < tags1.len() && qualifies(a, d, cur, #[trigger] tags1[i]@);
        assert(tags2.contains(tags1[i]));
        let j = choose|j: int| 0 <= j < tags2.len() && #[trigger] tags2[j] == tags1[i];
        assert(qualifies(a, d, cur, tags2[j]@));
    }
    if has_qualifying(tags2, workload) {
        let j = choose|j: int| 0 <= j < tags2.len() && qualifies(a, d, cur, #[trigger] tags2[j]@);
        assert(tags1.contains(tags2[j]));
        let i = choose|i: int| 0 <= i < tags1.len() && #[trigger] tags1[i] == tags2[j];
        assert(qualifies(a, d, cur, tags1[i]@));
    }
    let l1 = w1.latest_version@;
    let l2 = w2.latest_version@;
    if w1.update_available == UpdateStatus::Available {
        let i1 = choose|i: int| 0 <= i < tags1.len() && #[trigger] tags1[i]@ == l1;
        assert(tags2.contains(tags1[i1]));
        let j1 = choose|j: int| 0 <= j < tags2.len() && #[trigger] tags2[j] == tags1[i1];
        assert(!text_lt(l2, tags2[j1]@));
        let i2 = choose|i: int| 0 <= i < tags2.len() && #[trigger] tags2[i]@ == l2;
        assert(tags1.contains(tags2[i2]));
        let j2 = choose|j: int| 0 <= j < tags1.len() && #[trigger] tags1[j] == tags2[i2];
        assert(!text_lt(l1, tags1[j2]@));
        lemma_text_lt_total(l1, l2);
    } else {
        assert(l1 =~= l2);
    }
}

/// Scans one workload: evaluates it against its resolved tags and appends
/// the result to the history under the scan's id. A workload whose
/// patterns do not compile is skipped and leaves the history as it was.
pub fn scan_workload(
    store: &mut crate::history::HistoryStore,
    workload: &Workload,
    tags: Vec<String>,
    scan_id: u64,
) -> (r: Result<Workload, CompareError>)
    requires
        old(store).wf(),
        scan_id < u64::MAX,
    ensures
        final(store).wf(),
        r is Ok <==> filters_compile(opt_view(workload.include_pattern), opt_view(workload.exclude_pattern)),
        r matches Ok(w) ==> is_evaluation(*workload, tags@, w) && final(store)@ == old(store)@.push(
            crate::history::record_of(w, scan_id),
        ),
        r is Err ==> final(store)@ == old(store)@,
{
    match parse_tags(workload, tags) {
        Ok(w) => {
            store.insert_workload(&w, scan_id);
            Ok(w)
        },
        Err(e) => Err(e),
    }
}

} // verus!
