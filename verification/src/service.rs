use vstd::prelude::*;

use crate::error::UrlError;
use crate::model::RepoView;
use crate::types::{Paginated, Url, UrlRepo, UrlService};
use crate::PAGE_SIZE;

verus! {

/// URL service over an injected repository: implements the two user-facing
/// workflows and computes pagination metadata; it holds no state of its own.
pub struct UrlServiceImpl<A: UrlRepo> {
    pub url_repo: A,
}

impl<A: UrlRepo> UrlService for UrlServiceImpl<A> {
    open spec fn state(&self) -> RepoView {
        self.url_repo.state()
    }

    open spec fn wf(&self) -> bool {
        self.url_repo.wf()
    }

    fn shorten(&mut self, url: &str, user: &str) -> (r: Result<Url, UrlError>) {
        self.url_repo.generate_for_user(url, user)
    }

    fn get(&mut self, id: &str) -> (r: Result<Url, UrlError>) {
        let url = self.url_repo.get(id);
        match url {
            Ok(url) => {
                let _ = self.url_repo.increment_counter(id);
                Ok(url)
            },
            Err(e) => Err(e),
        }
    }

    fn new_user(&mut self) -> (r: Result<String, UrlError>) {
        self.url_repo.new_user()
    }

    fn get_urls_for_user(&self, user: &str, page: isize) -> (r: Paginated<Url>) {
        let start: isize = PAGE_SIZE * page;
        let stop: isize = start + PAGE_SIZE;
        let total: isize = match self.url_repo.count_urls_for_user(user) {
            Ok(t) => t,
            Err(_) => 0,
        };
        let page_count: isize = ((total as usize) / (PAGE_SIZE as usize)) as isize;
        let next: Option<isize> = if page < page_count - 1 {
            Some(page + 1)
        } else {
            None
        };
        let prev: Option<isize> = if page > 0 {
            Some(page - 1)
        } else {
            None
        };
        let results = self.url_repo.get_urls_for_user(user, start, stop);

        Paginated { total, page_count, next, prev, results }
    }
}

} // verus!
