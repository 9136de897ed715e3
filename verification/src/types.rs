use vstd::prelude::*;

use crate::error::{UrlError, UrlErrorKind};
use crate::model::{
    can_increment, generate_for_user_ok, generate_ok, get_spec, history_of, increment_ok,
    new_user_ok, page_of, RepoView, UrlView,
};
use crate::utils::{short_url_of, BuildUrl};
use crate::PAGE_SIZE;

verus! {

/// A stored short-link record: the short code, the original target URL, and
/// the visit counter.
#[derive(Debug, PartialEq, Eq)]
pub struct Url {
    pub id: String,
    pub url: String,
    pub count: u64,
}

impl View for Url {
    type V = UrlView;

    open spec fn view(&self) -> UrlView {
        UrlView { id: self.id@, url: self.url@, count: self.count }
    }
}

impl DeepView for Url {
    type V = UrlView;

    open spec fn deep_view(&self) -> UrlView {
        self@
    }
}

impl Clone for Url {
    fn clone(&self) -> (r: Url)
        ensures
            r == *self,
    {
        Url { id: self.id.clone(), url: self.url.clone(), count: self.count }
    }
}

/// Mathematical view of a `ResponseUrl`.
pub ghost struct ResponseUrlView {
    pub id: Seq<char>,
    pub short_url: Seq<char>,
    pub long_url: Seq<char>,
    pub count: u64,
}

/// The response built from record `u` when the service is published under
/// `domain`.
pub open spec fn response_of(u: UrlView, domain: Seq<char>) -> ResponseUrlView {
    ResponseUrlView {
        id: u.id,
        short_url: short_url_of(domain, u.id),
        long_url: u.url,
        count: u.count,
    }
}

/// A record as shown to a caller: the fully qualified short link beside the
/// original target.
#[derive(Debug)]
pub struct ResponseUrl {
    pub id: String,
    pub short_url: String,
    pub long_url: String,
    pub count: u64,
}

impl View for ResponseUrl {
    type V = ResponseUrlView;

    open spec fn view(&self) -> ResponseUrlView {
        ResponseUrlView {
            id: self.id@,
            short_url: self.short_url@,
            long_url: self.long_url@,
            count: self.count,
        }
    }
}

impl DeepView for ResponseUrl {
    type V = ResponseUrlView;

    open spec fn deep_view(&self) -> ResponseUrlView {
        self@
    }
}

impl ResponseUrl {
    /// Builds the caller-facing response for `url`, with the short link
    /// constructed from the configured public `domain`.
    pub fn from_url(url: &Url, domain: &str) -> (r: ResponseUrl)
        ensures
            r@ == response_of(url@, domain@),
    {
        ResponseUrl {
            id: url.id.clone(),
            short_url: url.build_url(domain),
            long_url: url.url.clone(),
            count: url.count,
        }
    }
}

/// A request to shorten one target URL, already validated by the caller.
#[derive(Debug)]
pub struct CreateUrl {
    pub url: String,
}

/// Path parameters of a redirect request: the literal short code.
pub struct RedirectParams {
    pub id: String,
}

/// Query parameters of a history listing request.
pub struct PageParams {
    pub page: Option<isize>,
}

/// One page of a paginated listing, recomputed on every read. `page_count`
/// is `total` divided by the page size (integer division); `next` is present
/// iff the current page index is below `page_count - 1`, `prev` iff it is
/// above zero.
#[derive(Debug)]
pub struct Paginated<T> {
    pub total: isize,
    pub page_count: isize,
    pub next: Option<isize>,
    pub prev: Option<isize>,
    pub results: Vec<T>,
}

impl Paginated<Url> {
    /// The page as shown to a caller, with each record's short link built
    /// from the configured public `domain`; the pagination metadata carries
    /// over unchanged.
    pub fn into_response(self, domain: &str) -> (r: Paginated<ResponseUrl>)
        ensures
            r.total == self.total,
            r.page_count == self.page_count,
            r.next == self.next,
            r.prev == self.prev,
            r.results.deep_view() == self.results.deep_view().map_values(
                (|u: UrlView| response_of(u, domain@)),
            ),
    {
        let mut results: Vec<ResponseUrl> = Vec::new();
        let mut i: usize = 0;
        while i < self.results.len()
            invariant
                i <= self.results@.len(),
                results.deep_view().len() == i as int,
                forall|j: int|
                    0 <= j < i ==> results.deep_view()[j] == response_of(
                        self.results@[j]@,
                        domain@,
                    ),
            decreases self.results@.len() - i,
        {
            let resp = ResponseUrl::from_url(&self.results[i], domain);
            let ghost res0 = results.deep_view();
            results.push(resp);
            proof {
                assert(results.deep_view() =~= res0.push(resp@));
            }
            i = i + 1;
        }
        proof {
            assert(results.deep_view() =~= self.results.deep_view().map_values(
                (|u: UrlView| response_of(u, domain@)),
            ));
        }
        Paginated {
            total: self.total,
            page_count: self.page_count,
            next: self.next,
            prev: self.prev,
            results,
        }
    }
}

/// The persistence layer: owns the stored records and each user's ordered
/// history, and composes the sequence allocators with the short-code encoder
/// to mint codes. `state` is the store it abstracts over, `wf` its
/// well-formedness; every operation preserves both.
pub trait UrlRepo: Sized {
    spec fn state(&self) -> RepoView;

    spec fn wf(&self) -> bool;

    /// Allocates the next code and persists a record with a fresh visit
    /// counter under it.
    fn generate(&mut self, url: &str) -> (r: Result<Url, UrlError>)
        requires
            old(self).wf(),
            old(self).state().url_counter < u64::MAX,
        ensures
            final(self).wf(),
            r is Ok,
            generate_ok(old(self).state(), final(self).state(), url@, r->Ok_0@),
    ;

    /// Fetches the record for `id`; reads never mutate the visit counter.
    /// Fails with `NotFound` exactly when no record exists for `id`.
    fn get(&self, id: &str) -> (r: Result<Url, UrlError>)
        requires
            self.wf(),
        ensures
            match get_spec(self.state(), id@) {
                Some(u) => r is Ok && r->Ok_0@ == u,
                None => r is Err && r->Err_0.kind == UrlErrorKind::NotFound,
            },
    ;

    /// Atomically raises the visit counter at `id` by exactly one. Fails
    /// with `StorageError` exactly when the record does not exist or its
    /// counter has no room left.
    fn increment_counter(&mut self, id: &str) -> (r: Result<bool, UrlError>)
        requires
            old(self).wf(),
        ensures
            final(self).wf(),
            can_increment(old(self).state(), id@) ==> r is Ok && r->Ok_0 == true
                && increment_ok(old(self).state(), final(self).state(), id@),
            !can_increment(old(self).state(), id@) ==> r is Err && r->Err_0.kind
                == UrlErrorKind::StorageError && final(self).state() == old(self).state(),
    ;

    /// Mints a fresh opaque user identifier; no user record is created.
    fn new_user(&mut self) -> (r: Result<String, UrlError>)
        requires
            old(self).wf(),
            old(self).state().user_counter < u64::MAX,
        ensures
            final(self).wf(),
            r is Ok,
            new_user_ok(old(self).state(), final(self).state(), r->Ok_0@),
    ;

    /// `generate` composed with a best-effort append of the new code to
    /// `user`'s ordered history.
    fn generate_for_user(&mut self, url: &str, user: &str) -> (r: Result<Url, UrlError>)
        requires
            old(self).wf(),
            old(self).state().url_counter < u64::MAX,
        ensures
            final(self).wf(),
            r is Ok,
            generate_for_user_ok(old(self).state(), final(self).state(), url@, user@, r->Ok_0@),
    ;

    /// The records of `user`'s history in reverse-chronological order, for
    /// index range `[start, stop)`; codes with no record are silently
    /// skipped, so the slice may be shorter than `stop - start`.
    fn get_urls_for_user(&self, user: &str, start: isize, stop: isize) -> (r: Vec<Url>)
        requires
            self.wf(),
            0 <= start <= stop,
        ensures
            r.deep_view() == page_of(self.state(), user@, start as int, stop as int),
    ;

    /// The total number of entries in `user`'s history index, not filtered
    /// for resolvability.
    fn count_urls_for_user(&self, user: &str) -> (r: Result<isize, UrlError>)
        requires
            self.wf(),
        ensures
            r is Ok,
            r->Ok_0 == history_of(self.state(), user@).len() as isize,
            history_of(self.state(), user@).len() <= isize::MAX,
    ;
}

/// The two user-facing workflows — shorten a URL for a user, resolve a code
/// and count the visit — plus pagination over a user's history.
pub trait UrlService: Sized {
    spec fn state(&self) -> RepoView;

    spec fn wf(&self) -> bool;

    /// Shortens `url` for `user`: delegates to the repository's
    /// `generate_for_user`.
    fn shorten(&mut self, url: &str, user: &str) -> (r: Result<Url, UrlError>)
        requires
            old(self).wf(),
            old(self).state().url_counter < u64::MAX,
        ensures
            final(self).wf(),
            r is Ok,
            generate_for_user_ok(old(self).state(), final(self).state(), url@, user@, r->Ok_0@),
    ;

    /// Resolves `id` and counts the visit. The returned record is the one
    /// read, before the count lands; a failure to count is absorbed so that
    /// the redirect still succeeds.
    fn get(&mut self, id: &str) -> (r: Result<Url, UrlError>)
        requires
            old(self).wf(),
        ensures
            final(self).wf(),
            match get_spec(old(self).state(), id@) {
                Some(u) => {
                    &&& r is Ok
                    &&& r->Ok_0@ == u
                    &&& if u.count < u64::MAX {
                        increment_ok(old(self).state(), final(self).state(), id@)
                    } else {
                        final(self).state() == old(self).state()
                    }
                },
                None => r is Err && r->Err_0.kind == UrlErrorKind::NotFound && final(self).state()
                    == old(self).state(),
            },
    ;

    /// Mints a fresh opaque user identifier: pure delegation.
    fn new_user(&mut self) -> (r: Result<String, UrlError>)
        requires
            old(self).wf(),
            old(self).state().user_counter < u64::MAX,
        ensures
            final(self).wf(),
            r is Ok,
            new_user_ok(old(self).state(), final(self).state(), r->Ok_0@),
    ;

    /// One fixed-size page of `user`'s history with its pagination metadata,
    /// computed from the repository's count and listing.
    fn get_urls_for_user(&self, user: &str, page: isize) -> (r: Paginated<Url>)
        requires
            self.wf(),
            0 <= page,
            page as int * PAGE_SIZE as int + PAGE_SIZE as int <= isize::MAX as int,
        ensures
            r.total as int == history_of(self.state(), user@).len() as int,
            r.page_count as int == r.total as int / PAGE_SIZE as int,
            r.next == (if (page as int) < (r.page_count as int) - 1 {
                Some((page + 1) as isize)
            } else {
                None::<isize>
            }),
            r.prev == (if (page as int) > 0 {
                Some((page - 1) as isize)
            } else {
                None::<isize>
            }),
            r.results.deep_view() == page_of(
                self.state(),
                user@,
                page as int * PAGE_SIZE as int,
                page as int * PAGE_SIZE as int + PAGE_SIZE as int,
            ),
    ;
}

} // verus!
