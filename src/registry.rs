//! Paged tag listing against a container registry.
//!
//! The registry is asked for pages of tags; [`TagPager`] decides whether
//! another page is needed and from which cursor, and collects the result.
use vstd::prelude::*;
use crate::compare::opt_view;
use crate::text::{texts, text_lt, text_less, lemma_text_lt_transitive, lemma_text_lt_irreflexive};

verus! {

/// Largest number of tags asked for in one request.
pub const PAGE_SIZE: usize = 1500;

/// A page this long is taken as cut short by the registry.
pub const FULL_PAGE: usize = 1000;

/// Most requests made for one image.
pub const MAX_REQUESTS: usize = 5;

/// `oci_distribution::Reference::try_from` accepts the image reference.
pub uninterp spec fn reference_parses(image: Seq<char>) -> bool;

/// The tag of the reference parsed from `image`.
pub uninterp spec fn reference_tag(image: Seq<char>) -> Option<Seq<char>>;

/// `oci_distribution::Reference`, carried opaquely inside [`ImageReference`].
#[verifier::external_type_specification]
#[verifier::external_body]
pub struct ExReference(oci_distribution::Reference);

/// Why the tags of an image could not be listed.
#[derive(PartialEq, Eq, Structural, Clone, Copy, Debug)]
pub enum ResolveError {
    /// The image reference is malformed.
    InvalidReference,
    /// A registry request failed.
    RegistryError,
}

/// A parsed image reference together with the text it was parsed from.
pub struct ImageReference {
    source: String,
    reference: oci_distribution::Reference,
}

impl View for ImageReference {
    type V = Seq<char>;

    closed spec fn view(&self) -> Seq<char> {
        self.source@
    }
}

impl ImageReference {
    /// Relies on `oci_distribution::Reference::try_from`, which refuses the
    /// empty text.
    #[verifier::external_body]
    pub(crate) fn parse(image: &str) -> (r: Result<ImageReference, ResolveError>)
        ensures
            r is Ok <==> reference_parses(image@),
            r matches Ok(x) ==> x@ == image@,
            r matches Err(e) ==> e == ResolveError::InvalidReference,
            image@.len() == 0 ==> r is Err,
    {
        oci_distribution::Reference::try_from(image)
            .map(|reference| ImageReference { source: image.to_string(), reference })
            .map_err(|_| ResolveError::InvalidReference)
    }

    /// Relies on `oci_distribution::Reference::tag`.
    #[verifier::external_body]
    pub(crate) fn tag(&self) -> (r: Option<String>)
        ensures
            opt_view(r) == reference_tag(self@),
    {
        self.reference.tag().map(|t| t.to_string())
    }

    /// The parsed reference, for the registry client.
    pub fn reference(&self) -> &oci_distribution::Reference {
        &self.reference
    }
}

/// `m` is in `page` and no element of `page` is greater.
pub open spec fn is_text_max(m: Seq<char>, page: Seq<Seq<char>>) -> bool {
    &&& page.contains(m)
    &&& forall|i: int| 0 <= i < page.len() ==> !text_lt(m, #[trigger] page[i])
}

/// The greatest tag of a page, in text order.
pub fn max_text(page: &Vec<String>) -> (r: Option<String>)
    ensures
        r is None <==> page@.len() == 0,
        r matches Some(m) ==> is_text_max(m@, texts(page@)),
{
    if page.len() == 0 {
        return None;
    }
    let ghost all = texts(page@);
    let mut best: usize = 0;
    let mut i: usize = 1;
    proof {
        lemma_text_lt_irreflexive(all[0]);
    }
    while i < page.len()
        invariant
            all == texts(page@),
            1 <= i <= page@.len(),
            0 <= best < i,
            forall|k: int| 0 <= k < i ==> !text_lt(all[best as int], #[trigger] all[k]),
        decreases page.len() - i,
    {
        if text_less(page[best].as_str(), page[i].as_str()) {
            proof {
                assert forall|k: int| 0 <= k <= i implies !text_lt(all[i as int], #[trigger] all[k]) by {
                    if k == i {
                        lemma_text_lt_irreflexive(all[k]);
                    } else if text_lt(all[i as int], all[k]) {
                        lemma_text_lt_transitive(all[best as int], all[i as int], all[k]);
                    }
                }
            }
            best = i;
        }
        i += 1;
    }
    assert(all[best as int] == page@[best as int]@);
    Some(page[best].clone())
}

/// What the pager has collected and where it stands.
pub struct PagerModel {
    pub tags: Seq<Seq<char>>,
    pub cursor: Option<Seq<char>>,
    pub requests: nat,
    pub finished: bool,
}

/// Another page is to be requested.
pub open spec fn wants_page(m: PagerModel) -> bool {
    !m.finished && m.requests < MAX_REQUESTS
}

/// The pager before any request, starting after `start`.
pub open spec fn initial_pager(start: Option<Seq<char>>) -> PagerModel {
    PagerModel { tags: Seq::empty(), cursor: start, requests: 0, finished: false }
}

/// How one received page moves the pager: its tags are appended; a full page
/// moves the cursor to its greatest tag, a shorter one ends the listing.
pub open spec fn page_step(old: PagerModel, page: Seq<Seq<char>>, new: PagerModel) -> bool {
    &&& new.tags == old.tags + page
    &&& new.requests == old.requests + 1
    &&& if page.len() >= FULL_PAGE {
        &&& !new.finished
        &&& new.cursor matches Some(c) && is_text_max(c, page)
    } else {
        &&& new.finished
        &&& new.cursor == old.cursor
    }
}

/// The decisions of a paged tag listing.
pub struct TagPager {
    tags: Vec<String>,
    cursor: Option<String>,
    requests: usize,
    finished: bool,
}

impl View for TagPager {
    type V = PagerModel;

    closed spec fn view(&self) -> PagerModel {
        PagerModel {
            tags: texts(self.tags@),
            cursor: opt_view(self.cursor),
            requests: self.requests as nat,
            finished: self.finished,
        }
    }
}

impl TagPager {
    /// A listing that starts after `start`, the tag of the image reference.
    pub fn new(start: Option<String>) -> (r: TagPager)
        ensures
            r@ == initial_pager(opt_view(start)),
    {
        let r = TagPager { tags: Vec::new(), cursor: start, requests: 0, finished: false };
        assert(texts(r.tags@) =~= Seq::empty());
        r
    }

    /// The cursor for the next request, or `None` when the listing is over.
    pub fn next_request(&self) -> (r: Option<Option<String>>)
        ensures
            r is Some <==> wants_page(self@),
            r matches Some(c) ==> opt_view(c) == self@.cursor,
    {
        if self.finished || self.requests >= MAX_REQUESTS {
            None
        } else {
            Some(crate::model::copy_text(&self.cursor))
        }
    }

    /// Takes in one page that the registry returned.
    pub fn accept_page(&mut self, page: Vec<String>)
        requires
            wants_page(old(self)@),
        ensures
            page_step(old(self)@, texts(page@), final(self)@),
    {
        let ghost before = self.tags@;
        let ghost start = *self;
        let full = page.len() >= FULL_PAGE;
        let top = max_text(&page);
        let mut i: usize = 0;
        while i < page.len()
            invariant
                0 <= i <= page@.len(),
                self.tags@ == before + page@.subrange(0, i as int),
                self.requests == start.requests,
                self.finished == start.finished,
                self.cursor == start.cursor,
                wants_page(start@),
            decreases page.len() - i,
        {
            self.tags.push(page[i].clone());
            assert(page@.subrange(0, i + 1) =~= page@.subrange(0, i as int).push(page@[i as int]));
            i += 1;
        }
        assert(page@.subrange(0, page@.len() as int) =~= page@);
        assert(texts(before + page@) =~= texts(before) + texts(page@));
        self.requests = self.requests + 1;
        if full {
            self.cursor = top;
        } else {
            self.finished = true;
        }
    }

    /// The request limit ended the listing before a short page did.
    pub fn truncated(&self) -> (r: bool)
        ensures
            r == (!self@.finished && self@.requests >= MAX_REQUESTS),
    {
        !self.finished && self.requests >= MAX_REQUESTS
    }

    /// Number of requests made so far.
    pub fn requests(&self) -> (r: usize)
        ensures
            r == self@.requests,
    {
        self.requests
    }

    /// All tags collected, in the order received.
    pub fn into_tags(self) -> (r: Vec<String>)
        ensures
            texts(r@) == self@.tags,
    {
        self.tags
    }
}

/// Starts the listing of an image's tags from the tag its reference names.
pub fn start_listing(image: &str) -> (r: Result<(ImageReference, TagPager), ResolveError>)
    ensures
        r is Ok <==> reference_parses(image@),
        r matches Err(e) ==> e == ResolveError::InvalidReference,
        r matches Ok((x, p)) ==> x@ == image@ && p@ == initial_pager(reference_tag(image@)),
{
    let x = ImageReference::parse(image)?;
    let p = TagPager::new(x.tag());
    Ok((x, p))
}

/// A registry that returns fewer tags than a full page is asked once.
pub proof fn law_short_page_ends_listing(start: Option<Seq<char>>, page: Seq<Seq<char>>, after: PagerModel)
    requires
        page.len() < FULL_PAGE,
        page_step(initial_pager(start), page, after),
    ensures
        after.requests == 1,
        !wants_page(after),
        after.tags == page,
{
    assert(Seq::<Seq<char>>::empty() + page =~= page);
}

/// However the registry answers, no more than the request limit is asked.
pub proof fn law_request_limit(m: PagerModel, page: Seq<Seq<char>>, after: PagerModel)
    requires
        wants_page(m),
        page_step(m, page, after),
    ensures
        after.requests <= MAX_REQUESTS,
{
}

} // verus!
