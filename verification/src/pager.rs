//! Fetching a paginated collection: one page at a time, following `next`
//! links until none remains, accumulating every page's items in order.
//!
//! The machine here makes the decisions; the surrounding shell performs
//! the HTTP requests. One request is owed per `on_page` call: the shell
//! requests the URL the machine holds, parses the response, and hands the
//! items and the parsed `next` link back.

use vstd::prelude::*;

use crate::error::CanvasError;
use crate::merge::view_opt_string;

verus! {

/// Ghost image of a paginated fetch in progress.
pub struct PagerV<T> {
    /// Items of every page taken so far, in arrival order.
    pub items: Seq<T>,
    /// URL of the next page, or nothing when the collection is exhausted.
    pub next: Option<Seq<char>>,
    /// Page requests made so far.
    pub requests: nat,
}

/// A paginated fetch in progress.
pub struct PageFetch<T> {
    pub items: Vec<T>,
    pub next: Option<String>,
    pub requests: u64,
}

impl<T> View for PageFetch<T> {
    type V = PagerV<T>;

    open spec fn view(&self) -> PagerV<T> {
        PagerV {
            items: self.items@,
            next: view_opt_string(self.next),
            requests: self.requests as nat,
        }
    }
}

/// One page taken: its items appended, its `next` link adopted, one more
/// request on the books.
pub open spec fn pager_step<T>(p: PagerV<T>, page: Seq<T>, next: Option<Seq<char>>) -> PagerV<T> {
    PagerV { items: p.items + page, next, requests: p.requests + 1 }
}

/// A whole run: the pages taken in order.
pub open spec fn pager_run<T>(p: PagerV<T>, pages: Seq<(Seq<T>, Option<Seq<char>>)>) -> PagerV<T>
    decreases pages.len(),
{
    if pages.len() == 0 {
        p
    } else {
        pager_run(pager_step(p, pages[0].0, pages[0].1), pages.drop_first())
    }
}

/// The items of a sequence of pages, concatenated in order.
pub open spec fn concat_pages<T>(pages: Seq<(Seq<T>, Option<Seq<char>>)>) -> Seq<T>
    decreases pages.len(),
{
    if pages.len() == 0 {
        Seq::empty()
    } else {
        pages[0].0 + concat_pages(pages.drop_first())
    }
}

impl<T> PageFetch<T> {
    /// A fetch about to request its first page.
    pub fn begin(first_url: String) -> (r: PageFetch<T>)
        ensures
            r@.items == Seq::<T>::empty(),
            r@.next == Some(first_url@),
            r@.requests == 0,
    {
        PageFetch { items: Vec::new(), next: Some(first_url), requests: 0 }
    }

    /// Whether the collection is exhausted: no `next` link remains.
    pub fn is_done(&self) -> (r: bool)
        ensures
            r == (self@.next is None),
    {
        self.next.is_none()
    }

    /// The URL the next request must go to, while one is owed.
    pub fn next_url(&self) -> (r: &Option<String>)
        ensures
            view_opt_string(*r) == self@.next,
    {
        &self.next
    }

    /// Take one page: the response's items and its parsed `next` link.
    pub fn on_page(&mut self, page_items: Vec<T>, next_link: Option<String>)
        requires
            old(self)@.next is Some,
            old(self).requests < u64::MAX,
        ensures
            final(self)@ == pager_step(old(self)@, page_items@, view_opt_string(next_link)),
    {
        let mut page_items = page_items;
        self.items.append(&mut page_items);
        self.next = next_link;
        self.requests = self.requests + 1;
    }

    /// The accumulated items, in the order the pages arrived.
    pub fn into_items(self) -> (r: Vec<T>)
        ensures
            r@ == self@.items,
    {
        self.items
    }
}

/// Whether a string is a well-formed absolute URL; what `url::Url::parse`
/// accepts, which depends on the string alone.
pub uninterp spec fn url_ok(s: Seq<char>) -> bool;

/// Relies on url::Url::parse: a pagination link must be a well-formed
/// absolute URL before the transport may be pointed at it. The error text
/// is the parser's own.
#[verifier::external_body]
fn check_url(s: &str) -> (r: Result<(), String>)
    ensures
        r is Ok <==> url_ok(s@),
{
    match url::Url::parse(s) {
        Ok(_) => Ok(()),
        Err(e) => Err(format!("{e}")),
    }
}

impl<T> PageFetch<T> {
    /// The URL the next page request must go to, checked to be
    /// well-formed: a malformed pagination link fails the whole fetch, as
    /// a local error naming it.
    pub fn next_request(&self) -> (r: Result<&String, CanvasError>)
        requires
            self@.next is Some,
        ensures
            r is Ok <==> url_ok(self@.next->0),
            r matches Ok(u) ==> u@ == self@.next->0,
            r matches Err(e) ==> e matches CanvasError::Other { message } && message@.len() > 0,
    {
        let u = match &self.next {
            Some(u) => u,
            None => {
                proof {
                    assert(false);
                }
                unreached()
            },
        };
        match check_url(u.as_str()) {
            Ok(()) => Ok(u),
            Err(detail) => {
                let mut message = String::from_str("Bad pagination URL: ");
                message.append(detail.as_str());
                proof {
                    reveal_strlit("Bad pagination URL: ");
                }
                Err(CanvasError::Other { message })
            },
        }
    }
}

/// Fetching across pages accumulates exactly their items, in page order,
/// and costs exactly one request per page.
pub proof fn lemma_pager_run<T>(p: PagerV<T>, pages: Seq<(Seq<T>, Option<Seq<char>>)>)
    ensures
        pager_run(p, pages).items == p.items + concat_pages(pages),
        pager_run(p, pages).requests == p.requests + pages.len(),
        pages.len() > 0 ==> pager_run(p, pages).next == pages.last().1,
        pages.len() == 0 ==> pager_run(p, pages) == p,
    decreases pages.len(),
{
    if pages.len() == 0 {
        assert(p.items + concat_pages(pages) =~= p.items);
    } else {
        let p1 = pager_step(p, pages[0].0, pages[0].1);
        lemma_pager_run(p1, pages.drop_first());
        assert(p.items + pages[0].0 + concat_pages(pages.drop_first()) =~= p.items + (pages[0].0
            + concat_pages(pages.drop_first())));
        if pages.len() > 1 {
            assert(pages.drop_first().last() == pages.last());
        }
    }
}

/// A run over N pages of which the first N-1 carry a `next` link and the
/// last does not: the fetch ends exhausted, holds the concatenation of all
/// pages' items in order, and has made exactly N page requests.
pub proof fn lemma_fetch_all_pages<T>(
    start: PagerV<T>,
    pages: Seq<(Seq<T>, Option<Seq<char>>)>,
)
    requires
        start.items == Seq::<T>::empty(),
        start.requests == 0,
        pages.len() > 0,
        forall|i: int| 0 <= i < pages.len() - 1 ==> (#[trigger] pages[i].1) is Some,
        pages.last().1 is None,
    ensures
        pager_run(start, pages).items == concat_pages(pages),
        pager_run(start, pages).requests == pages.len(),
        pager_run(start, pages).next is None,
{
    lemma_pager_run(start, pages);
    assert(start.items + concat_pages(pages) =~= concat_pages(pages));
}

} // verus!
