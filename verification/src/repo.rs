use vstd::prelude::*;

use crate::encoder::{code_within, decode_of, encode_of, ShortCodeEncoder};
use crate::error::{UrlError, UrlErrorKind};
use crate::model::{
    appended_history, history_of, page_ids, page_of, resolve_ids, RepoView, UrlView,
};
use crate::sequence::SequenceAllocator;
use crate::types::{Url, UrlRepo};
use crate::utils::str_eq;
use vstd::string::StringExecFns;

verus! {

/// One user's ordered history of created short codes, oldest first.
pub struct UserHistory {
    pub user: String,
    pub ids: Vec<String>,
}

/// The records map that a sequence of stored records denotes: later entries
/// shadow earlier ones with the same code.
pub open spec fn urls_map(s: Seq<Url>) -> Map<Seq<char>, UrlView>
    decreases s.len(),
{
    if s.len() == 0 {
        Map::empty()
    } else {
        urls_map(s.drop_last()).insert(s.last()@.id, s.last()@)
    }
}

/// The history map that a sequence of per-user entries denotes: later
/// entries shadow earlier ones for the same user.
pub open spec fn history_map(s: Seq<UserHistory>) -> Map<Seq<char>, Seq<Seq<char>>>
    decreases s.len(),
{
    if s.len() == 0 {
        Map::empty()
    } else {
        history_map(s.drop_last()).insert(s.last().user@, s.last().ids.deep_view())
    }
}

/// URL repository backed by an in-memory store: a counter cell per
/// allocator, a record per short code, and an ordered per-user history
/// index, exactly the primitives the design asks of a backing store.
pub struct InMemoryUrlRepo {
    pub encoder: ShortCodeEncoder,
    pub url_seq: SequenceAllocator,
    pub user_seq: SequenceAllocator,
    pub urls: Vec<Url>,
    pub history: Vec<UserHistory>,
}

impl View for InMemoryUrlRepo {
    type V = RepoView;

    open spec fn view(&self) -> RepoView {
        RepoView {
            salt: self.encoder.salt@,
            code_length: self.encoder.code_length as nat,
            url_counter: self.url_seq.value,
            user_counter: self.user_seq.value,
            records: urls_map(self.urls@),
            history: history_map(self.history@),
        }
    }
}

proof fn lemma_urls_map_push(s: Seq<Url>, u: Url)
    ensures
        urls_map(s.push(u)) == urls_map(s).insert(u@.id, u@),
{
    assert(s.push(u).drop_last() =~= s);
    assert(s.push(u).last() == u);
}

proof fn lemma_urls_map_find(s: Seq<Url>, i: int)
    requires
        0 <= i < s.len(),
        forall|j: int| i < j < s.len() ==> s[j]@.id != s[i]@.id,
    ensures
        urls_map(s).contains_key(s[i]@.id),
        urls_map(s)[s[i]@.id] == s[i]@,
    decreases s.len(),
{
    if i < s.len() - 1 {
        assert forall|j: int| i < j < s.drop_last().len() implies s.drop_last()[j]@.id
            != s.drop_last()[i]@.id by {
            assert(s.drop_last()[j] == s[j]);
        }
        lemma_urls_map_find(s.drop_last(), i);
        assert(s[s.len() - 1]@.id != s[i]@.id);
    }
}

proof fn lemma_urls_map_absent(s: Seq<Url>, id: Seq<char>)
    requires
        forall|j: int| 0 <= j < s.len() ==> s[j]@.id != id,
    ensures
        !urls_map(s).contains_key(id),
    decreases s.len(),
{
    if s.len() > 0 {
        lemma_urls_map_absent(s.drop_last(), id);
    }
}

proof fn lemma_urls_map_update(s: Seq<Url>, i: int, u: Url)
    requires
        0 <= i < s.len(),
        u@.id == s[i]@.id,
        forall|j: int| i < j < s.len() ==> s[j]@.id != s[i]@.id,
    ensures
        urls_map(s.update(i, u)) == urls_map(s).insert(u@.id, u@),
    decreases s.len(),
{
    let su = s.update(i, u);
    if i == s.len() - 1 {
        assert(su.drop_last() =~= s.drop_last());
        assert(su.last() == u);
        assert(urls_map(su) =~= urls_map(s).insert(u@.id, u@));
    } else {
        assert(su.drop_last() =~= s.drop_last().update(i, u));
        assert(su.last() == s.last());
        assert forall|j: int| i < j < s.drop_last().len() implies s.drop_last()[j]@.id
            != s.drop_last()[i]@.id by {
            assert(s.drop_last()[j] == s[j]);
        }
        lemma_urls_map_update(s.drop_last(), i, u);
        assert(s.last()@.id != u@.id);
        assert(urls_map(su) =~= urls_map(s).insert(u@.id, u@));
    }
}

proof fn lemma_history_map_push(s: Seq<UserHistory>, h: UserHistory)
    ensures
        history_map(s.push(h)) == history_map(s).insert(h.user@, h.ids.deep_view()),
{
    assert(s.push(h).drop_last() =~= s);
    assert(s.push(h).last() == h);
}

proof fn lemma_history_map_find(s: Seq<UserHistory>, i: int)
    requires
        0 <= i < s.len(),
        forall|j: int| i < j < s.len() ==> s[j].user@ != s[i].user@,
    ensures
        history_map(s).contains_key(s[i].user@),
        history_map(s)[s[i].user@] == s[i].ids.deep_view(),
    decreases s.len(),
{
    if i < s.len() - 1 {
        assert forall|j: int| i < j < s.drop_last().len() implies s.drop_last()[j].user@
            != s.drop_last()[i].user@ by {
            assert(s.drop_last()[j] == s[j]);
        }
        lemma_history_map_find(s.drop_last(), i);
        assert(s[s.len() - 1].user@ != s[i].user@);
    }
}

proof fn lemma_history_map_absent(s: Seq<UserHistory>, user: Seq<char>)
    requires
        forall|j: int| 0 <= j < s.len() ==> s[j].user@ != user,
    ensures
        !history_map(s).contains_key(user),
    decreases s.len(),
{
    if s.len() > 0 {
        lemma_history_map_absent(s.drop_last(), user);
    }
}

proof fn lemma_history_map_update(s: Seq<UserHistory>, i: int, h: UserHistory)
    requires
        0 <= i < s.len(),
        h.user@ == s[i].user@,
        forall|j: int| i < j < s.len() ==> s[j].user@ != s[i].user@,
    ensures
        history_map(s.update(i, h)) == history_map(s).insert(h.user@, h.ids.deep_view()),
    decreases s.len(),
{
    let su = s.update(i, h);
    if i == s.len() - 1 {
        assert(su.drop_last() =~= s.drop_last());
        assert(su.last() == h);
        assert(history_map(su) =~= history_map(s).insert(h.user@, h.ids.deep_view()));
    } else {
        assert(su.drop_last() =~= s.drop_last().update(i, h));
        assert(su.last() == s.last());
        assert forall|j: int| i < j < s.drop_last().len() implies s.drop_last()[j].user@
            != s.drop_last()[i].user@ by {
            assert(s.drop_last()[j] == s[j]);
        }
        lemma_history_map_update(s.drop_last(), i, h);
        assert(s.last().user@ != h.user@);
        assert(history_map(su) =~= history_map(s).insert(h.user@, h.ids.deep_view()));
    }
}

impl InMemoryUrlRepo {
    /// A fresh repository over an empty store, minting codes with the given
    /// salt and minimum code length.
    pub fn new(salt: String, code_length: usize) -> (r: InMemoryUrlRepo)
        ensures
            r.wf(),
            r@.salt == salt@,
            r@.code_length == code_length as nat,
            r@.url_counter == 0,
            r@.user_counter == 0,
            r@.records == Map::<Seq<char>, UrlView>::empty(),
            r@.history == Map::<Seq<char>, Seq<Seq<char>>>::empty(),
    {
        InMemoryUrlRepo {
            encoder: ShortCodeEncoder::new(salt, code_length),
            url_seq: SequenceAllocator::new(),
            user_seq: SequenceAllocator::new(),
            urls: Vec::new(),
            history: Vec::new(),
        }
    }

    /// The index of the record stored under `id`, scanning the store so that
    /// the entry found is the authoritative (latest) one.
    fn find_url_index(&self, id: &str) -> (r: Option<usize>)
        ensures
            match r {
                Some(i) => i < self.urls@.len() && self.urls@[i as int]@.id == id@ && (forall|
                    j: int,
                |
                    i < j < self.urls@.len() ==> self.urls@[j]@.id != id@),
                None => forall|j: int| 0 <= j < self.urls@.len() ==> self.urls@[j]@.id != id@,
            },
    {
        let mut i = self.urls.len();
        while i > 0
            invariant
                i <= self.urls@.len(),
                forall|j: int| i <= j < self.urls@.len() ==> self.urls@[j]@.id != id@,
            decreases i,
        {
            i = i - 1;
            if str_eq(self.urls[i].id.as_str(), id) {
                return Some(i);
            }
        }
        None
    }

    /// The index of `user`'s history entry, scanning so that the entry found
    /// is the authoritative (latest) one.
    fn find_user_index(&self, user: &str) -> (r: Option<usize>)
        ensures
            match r {
                Some(i) => i < self.history@.len() && self.history@[i as int].user@ == user@ && (
                forall|j: int| i < j < self.history@.len() ==> self.history@[j].user@ != user@),
                None => forall|j: int|
                    0 <= j < self.history@.len() ==> self.history@[j].user@ != user@,
            },
    {
        let mut i = self.history.len();
        while i > 0
            invariant
                i <= self.history@.len(),
                forall|j: int| i <= j < self.history@.len() ==> self.history@[j].user@ != user@,
            decreases i,
        {
            i = i - 1;
            if str_eq(self.history[i].user.as_str(), user) {
                return Some(i);
            }
        }
        None
    }

    /// The namespaced store key the record for code `id` is persisted under.
    pub fn get_key(&self, id: &str) -> (r: String)
        ensures
            r@ == "url_shortener:urls:"@ + id@,
    {
        let mut key = "url_shortener:urls:".to_owned();
        key.append(id);
        key
    }

    /// The namespaced store key `user`'s ordered history is persisted under.
    pub fn get_user_key(&self, id: &str) -> (r: String)
        ensures
            r@ == "url_shortener:users:"@ + id@,
    {
        let mut key = "url_shortener:users:".to_owned();
        key.append(id);
        key
    }

    /// Allocates the next URL counter value and encodes it into the short
    /// code the next record will be stored under.
    pub fn get_next_key(&mut self) -> (r: Result<String, UrlError>)
        requires
            old(self).wf(),
            old(self)@.url_counter < u64::MAX,
        ensures
            final(self).wf(),
            r is Ok,
            r->Ok_0@ == encode_of(
                old(self)@.salt,
                old(self)@.code_length,
                (old(self)@.url_counter + 1) as u64,
            ),
            decode_of(old(self)@.salt, old(self)@.code_length, r->Ok_0@) == Some(
                seq![(old(self)@.url_counter + 1) as u64],
            ),
            final(self)@.salt == old(self)@.salt,
            final(self)@.code_length == old(self)@.code_length,
            final(self)@.url_counter == old(self)@.url_counter + 1,
            final(self)@.user_counter == old(self)@.user_counter,
            final(self)@.records == old(self)@.records,
            final(self)@.history == old(self)@.history,
    {
        let next = self.url_seq.next();
        Ok(self.encoder.encode_value(next))
    }

    /// The `n` most recent records of `user`'s history, most recent first:
    /// the first page of the reverse-chronological listing.
    pub fn get_last_n_for_user(&self, user: &str, n: isize) -> (r: Vec<Url>)
        requires
            self.wf(),
            0 <= n,
        ensures
            r.deep_view() == page_of(self@, user@, 0, n as int),
    {
        self.get_urls_for_user(user, 0, n)
    }

    /// Appends `id` to `user`'s ordered history, best effort: an entry that
    /// can no longer be counted is left as it is.
    fn save_for_user(&mut self, id: &str, user: &str)
        requires
            old(self).wf(),
            urls_map(old(self).urls@).contains_key(id@),
        ensures
            final(self).wf(),
            final(self)@.salt == old(self)@.salt,
            final(self)@.code_length == old(self)@.code_length,
            final(self)@.url_counter == old(self)@.url_counter,
            final(self)@.user_counter == old(self)@.user_counter,
            final(self)@.records == old(self)@.records,
            final(self)@.history == appended_history(old(self)@, user@, id@),
    {
        let idx = self.find_user_index(user);
        match idx {
            Some(i) => {
                proof {
                    lemma_history_map_find(self.history@, i as int);
                }
                if self.history[i].ids.len() < (isize::MAX as usize) {
                    let ghost h0 = self.history@;
                    let ghost ids0 = self.history@[i as int].ids.deep_view();
                    self.history[i].ids.push(id.to_owned());
                    proof {
                        assert(self.history@[i as int].ids.deep_view() =~= ids0.push(id@));
                        assert(self.history@ =~= h0.update(
                            i as int,
                            self.history@[i as int],
                        ));
                        lemma_history_map_update(h0, i as int, self.history@[i as int]);
                        assert(history_map(self.history@) =~= appended_history(
                            old(self)@,
                            user@,
                            id@,
                        ));
                    }
                }
            },
            None => {
                proof {
                    lemma_history_map_absent(self.history@, user@);
                }
                let ghost h0 = self.history@;
                let mut ids: Vec<String> = Vec::new();
                ids.push(id.to_owned());
                let entry = UserHistory { user: user.to_owned(), ids };
                proof {
                    assert(entry.ids.deep_view() =~= Seq::<Seq<char>>::empty().push(id@));
                }
                self.history.push(entry);
                proof {
                    lemma_history_map_push(h0, self.history@.last());
                }
            },
        }
    }
}

impl UrlRepo for InMemoryUrlRepo {
    open spec fn state(&self) -> RepoView {
        self.view()
    }

    open spec fn wf(&self) -> bool {
        &&& forall|u: Seq<char>| #[trigger]
            history_map(self.history@).contains_key(u) ==> history_map(self.history@)[u].len()
                <= isize::MAX
        &&& forall|id: Seq<char>| #[trigger]
            urls_map(self.urls@).contains_key(id) ==> code_within(
                self.encoder.salt@,
                self.encoder.code_length as nat,
                id,
                self.url_seq.value,
            )
        &&& forall|u: Seq<char>, i: int|
            history_map(self.history@).contains_key(u) && 0 <= i < history_map(
                self.history@,
            )[u].len() ==> urls_map(self.urls@).contains_key(
                #[trigger] history_map(self.history@)[u][i],
            )
    }

    fn generate(&mut self, url: &str) -> (r: Result<Url, UrlError>) {
        let ghost pre = self@;
        let key = match self.get_next_key() {
            Ok(k) => k,
            Err(e) => { return Err(e) },
        };
        let rec = Url { id: key, url: url.to_owned(), count: 0 };
        proof {
            // the new code decodes to the counter value just allocated,
            // above every value a stored code decodes to: it is fresh
            assert(!pre.records.contains_key(rec@.id)) by {
                if pre.records.contains_key(rec@.id) {
                    assert(code_within(pre.salt, pre.code_length, rec@.id, pre.url_counter));
                    assert(decode_of(pre.salt, pre.code_length, rec@.id) == Some(
                        seq![(pre.url_counter + 1) as u64],
                    ));
                    assert(seq![(pre.url_counter + 1) as u64][0] == (pre.url_counter
                        + 1) as u64);
                }
            }
        }
        let ghost s0 = self.urls@;
        self.urls.push(rec.clone());
        proof {
            lemma_urls_map_push(s0, rec);
            assert forall|id: Seq<char>| #[trigger]
                urls_map(self.urls@).contains_key(id) implies code_within(
                self.encoder.salt@,
                self.encoder.code_length as nat,
                id,
                self.url_seq.value,
            ) by {
                if id == rec@.id {
                    assert(seq![(pre.url_counter + 1) as u64][0] == (pre.url_counter
                        + 1) as u64);
                } else {
                    assert(urls_map(s0).contains_key(id));
                }
            }
        }
        Ok(rec)
    }

    fn get(&self, id: &str) -> (r: Result<Url, UrlError>) {
        match self.find_url_index(id) {
            Some(i) => {
                proof {
                    lemma_urls_map_find(self.urls@, i as int);
                }
                Ok(self.urls[i].clone())
            },
            None => {
                proof {
                    lemma_urls_map_absent(self.urls@, id@);
                }
                Err(UrlError::not_found())
            },
        }
    }

    fn increment_counter(&mut self, id: &str) -> (r: Result<bool, UrlError>) {
        match self.find_url_index(id) {
            Some(i) => {
                proof {
                    lemma_urls_map_find(self.urls@, i as int);
                }
                if self.urls[i].count < u64::MAX {
                    let ghost s0 = self.urls@;
                    let mut rec = self.urls[i].clone();
                    rec.count = rec.count + 1;
                    self.urls[i] = rec;
                    proof {
                        lemma_urls_map_update(s0, i as int, self.urls@[i as int]);
                        assert forall|key: Seq<char>| #[trigger]
                            urls_map(self.urls@).contains_key(key) implies code_within(
                            self.encoder.salt@,
                            self.encoder.code_length as nat,
                            key,
                            self.url_seq.value,
                        ) by {
                            assert(urls_map(s0).contains_key(key));
                        }
                    }
                    Ok(true)
                } else {
                    Err(UrlError::storage_error())
                }
            },
            None => {
                proof {
                    lemma_urls_map_absent(self.urls@, id@);
                }
                Err(UrlError::storage_error())
            },
        }
    }

    fn new_user(&mut self) -> (r: Result<String, UrlError>) {
        let next = self.user_seq.next();
        Ok(self.encoder.encode_value(next))
    }

    fn generate_for_user(&mut self, url: &str, user: &str) -> (r: Result<Url, UrlError>) {
        let rec = match self.generate(url) {
            Ok(u) => u,
            Err(e) => { return Err(e) },
        };
        self.save_for_user(rec.id.as_str(), user);
        Ok(rec)
    }

    fn get_urls_for_user(&self, user: &str, start: isize, stop: isize) -> (r: Vec<Url>) {
        let mut res: Vec<Url> = Vec::new();
        let idx = self.find_user_index(user);
        match idx {
            None => {
                proof {
                    lemma_history_map_absent(self.history@, user@);
                    assert(history_of(self@, user@).reverse() =~= Seq::<Seq<char>>::empty());
                    assert(res.deep_view() =~= page_of(
                        self@,
                        user@,
                        start as int,
                        stop as int,
                    ));
                }
                res
            },
            Some(ui) => {
                proof {
                    lemma_history_map_find(self.history@, ui as int);
                }
                let ids: &Vec<String> = &self.history[ui].ids;
                let n = ids.len();
                let start_u: usize = if (start as usize) > n {
                    n
                } else {
                    start as usize
                };
                let stop_u: usize = if (stop as usize) > n {
                    n
                } else {
                    stop as usize
                };
                let ghost pids = page_ids(self@, user@, start as int, stop as int);
                proof {
                    assert(history_of(self@, user@) == ids.deep_view());
                    assert(history_of(self@, user@).reverse().len() == n as int);
                }
                let mut k = start_u;
                while k < stop_u
                    invariant
                        start_u <= k <= stop_u <= n,
                        n == ids@.len(),
                        pids == page_ids(self@, user@, start as int, stop as int),
                        pids.len() == stop_u - start_u,
                        forall|m: int|
                            0 <= m < pids.len() ==> pids[m] == ids.deep_view()[n - 1 - start_u
                                - m],
                        res.deep_view() == resolve_ids(self@, pids.take(k - start_u)),
                    decreases stop_u - k,
                {
                    let ghost res0 = res.deep_view();
                    let id: &String = &ids[n - 1 - k];
                    proof {
                        assert(pids[k - start_u] == ids.deep_view()[n - 1 - k as int]);
                        assert(ids.deep_view()[n - 1 - k as int] == id@);
                    }
                    match self.find_url_index(id.as_str()) {
                        Some(i) => {
                            proof {
                                lemma_urls_map_find(self.urls@, i as int);
                            }
                            res.push(self.urls[i].clone());
                        },
                        None => {
                            proof {
                                lemma_urls_map_absent(self.urls@, id@);
                            }
                        },
                    }
                    k = k + 1;
                    proof {
                        assert(pids.take(k - start_u).drop_last() =~= pids.take(
                            k - 1 - start_u,
                        ));
                        assert(pids.take(k - start_u).last() == pids[k - 1 - start_u]);
                        assert(res.deep_view() =~= resolve_ids(self@, pids.take(k - start_u)));
                    }
                }
                proof {
                    assert(pids.take(stop_u - start_u) =~= pids);
                }
                res
            },
        }
    }

    fn count_urls_for_user(&self, user: &str) -> (r: Result<isize, UrlError>) {
        match self.find_user_index(user) {
            Some(i) => {
                proof {
                    lemma_history_map_find(self.history@, i as int);
                }
                Ok(self.history[i].ids.len() as isize)
            },
            None => {
                proof {
                    lemma_history_map_absent(self.history@, user@);
                }
                Ok(0)
            },
        }
    }
}

} // verus!
