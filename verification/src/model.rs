use vstd::prelude::*;

use crate::encoder::encode_of;

verus! {

/// Mathematical view of one stored URL record: the short code, the target it
/// redirects to, and the visit counter.
pub ghost struct UrlView {
    pub id: Seq<char>,
    pub url: Seq<char>,
    pub count: u64,
}

/// Mathematical view of the whole backing store: the two counter cells, the
/// records keyed by short code, and the per-user history index, oldest entry
/// first, together with the encoder configuration used to mint codes.
pub ghost struct RepoView {
    pub salt: Seq<char>,
    pub code_length: nat,
    pub url_counter: u64,
    pub user_counter: u64,
    pub records: Map<Seq<char>, UrlView>,
    pub history: Map<Seq<char>, Seq<Seq<char>>>,
}

/// A user's ordered history of created short codes, oldest first; empty for a
/// user that never created one.
pub open spec fn history_of(v: RepoView, user: Seq<char>) -> Seq<Seq<char>> {
    if v.history.contains_key(user) {
        v.history[user]
    } else {
        Seq::empty()
    }
}

/// The record stored under `id`, if any.
pub open spec fn get_spec(v: RepoView, id: Seq<char>) -> Option<UrlView> {
    if v.records.contains_key(id) {
        Some(v.records[id])
    } else {
        None
    }
}

/// The record that a successful `generate` against state `pre` mints for
/// target `url`: keyed by the code of the next counter value — a code no
/// stored record already carries — with a fresh visit count.
pub open spec fn minted(pre: RepoView, url: Seq<char>, u: UrlView) -> bool {
    &&& u.id == encode_of(pre.salt, pre.code_length, (pre.url_counter + 1) as u64)
    &&& u.url == url
    &&& u.count == 0
    &&& !pre.records.contains_key(u.id)
}

/// How `generate` takes state `pre` to state `post` when it returns record
/// `u`: the URL counter advances by one, the record is stored under its code,
/// and nothing else changes.
pub open spec fn generate_ok(pre: RepoView, post: RepoView, url: Seq<char>, u: UrlView) -> bool {
    &&& minted(pre, url, u)
    &&& post.salt == pre.salt
    &&& post.code_length == pre.code_length
    &&& post.url_counter == pre.url_counter + 1
    &&& post.user_counter == pre.user_counter
    &&& post.records == pre.records.insert(u.id, u)
    &&& post.history == pre.history
}

/// How `new_user` takes state `pre` to state `post` when it mints the user
/// identifier `name`: only the user counter advances.
pub open spec fn new_user_ok(pre: RepoView, post: RepoView, name: Seq<char>) -> bool {
    &&& name == encode_of(pre.salt, pre.code_length, (pre.user_counter + 1) as u64)
    &&& post.salt == pre.salt
    &&& post.code_length == pre.code_length
    &&& post.url_counter == pre.url_counter
    &&& post.user_counter == pre.user_counter + 1
    &&& post.records == pre.records
    &&& post.history == pre.history
}

/// Whether an increment of the visit counter at `id` can land: the record
/// must exist and its counter must still have room.
pub open spec fn can_increment(v: RepoView, id: Seq<char>) -> bool {
    v.records.contains_key(id) && v.records[id].count < u64::MAX
}

/// How a successful `increment_counter` takes state `pre` to state `post`:
/// the record at `id` has its visit counter raised by exactly one, and
/// nothing else changes.
pub open spec fn increment_ok(pre: RepoView, post: RepoView, id: Seq<char>) -> bool {
    &&& post.salt == pre.salt
    &&& post.code_length == pre.code_length
    &&& post.url_counter == pre.url_counter
    &&& post.user_counter == pre.user_counter
    &&& post.records == pre.records.insert(
        id,
        UrlView { count: (pre.records[id].count + 1) as u64, ..pre.records[id] },
    )
    &&& post.history == pre.history
}

/// The history map after a best-effort append of `id` to `user`'s history:
/// the entry is appended unless the history is already at the largest size a
/// count can report, in which case the append is dropped.
pub open spec fn appended_history(pre: RepoView, user: Seq<char>, id: Seq<char>) -> Map<
    Seq<char>,
    Seq<Seq<char>>,
> {
    if history_of(pre, user).len() < isize::MAX {
        pre.history.insert(user, history_of(pre, user).push(id))
    } else {
        pre.history
    }
}

/// How `generate_for_user` takes state `pre` to state `post` when it returns
/// record `u`: a `generate` composed with a best-effort append of the new
/// code to `user`'s history.
pub open spec fn generate_for_user_ok(
    pre: RepoView,
    post: RepoView,
    url: Seq<char>,
    user: Seq<char>,
    u: UrlView,
) -> bool {
    &&& minted(pre, url, u)
    &&& post.salt == pre.salt
    &&& post.code_length == pre.code_length
    &&& post.url_counter == pre.url_counter + 1
    &&& post.user_counter == pre.user_counter
    &&& post.records == pre.records.insert(u.id, u)
    &&& post.history == appended_history(pre, user, u.id)
}

/// Clamps an index into the bounds of a sequence of length `len`.
pub open spec fn clip(i: int, len: int) -> int {
    if i < 0 {
        0
    } else if i > len {
        len
    } else {
        i
    }
}

/// The short codes of `user`'s history in reverse-chronological order (most
/// recent first), restricted to index range `[start, stop)` of that order.
pub open spec fn page_ids(v: RepoView, user: Seq<char>, start: int, stop: int) -> Seq<Seq<char>> {
    let rev = history_of(v, user).reverse();
    rev.subrange(clip(start, rev.len() as int), clip(stop, rev.len() as int))
}

/// The records stored under `ids`, in order; codes with no record are
/// silently skipped.
pub open spec fn resolve_ids(v: RepoView, ids: Seq<Seq<char>>) -> Seq<UrlView>
    decreases ids.len(),
{
    if ids.len() == 0 {
        Seq::empty()
    } else {
        let rest = resolve_ids(v, ids.drop_last());
        if v.records.contains_key(ids.last()) {
            rest.push(v.records[ids.last()])
        } else {
            rest
        }
    }
}

/// One page of `user`'s history: the records of the reverse-chronological
/// index range `[start, stop)`, with unresolvable codes skipped.
pub open spec fn page_of(v: RepoView, user: Seq<char>, start: int, stop: int) -> Seq<UrlView> {
    resolve_ids(v, page_ids(v, user, start, stop))
}

proof fn lemma_resolve_all_present(v: RepoView, ids: Seq<Seq<char>>)
    requires
        forall|i: int| 0 <= i < ids.len() ==> v.records.contains_key(#[trigger] ids[i]),
    ensures
        resolve_ids(v, ids).len() == ids.len(),
    decreases ids.len(),
{
    if ids.len() > 0 {
        assert forall|i: int| 0 <= i < ids.drop_last().len() implies v.records.contains_key(
            #[trigger] ids.drop_last()[i],
        ) by {
            assert(ids.drop_last()[i] == ids[i]);
        }
        lemma_resolve_all_present(v, ids.drop_last());
    }
}

/// Law: a fully resolvable page is full — where every code in `user`'s
/// history has a record, the page over index range `[start, stop)` skips
/// nothing and holds exactly the part of that range the history covers.
pub proof fn lemma_full_page_len(v: RepoView, user: Seq<char>, start: int, stop: int)
    requires
        0 <= start <= stop,
        forall|i: int|
            0 <= i < history_of(v, user).len() ==> v.records.contains_key(
                #[trigger] history_of(v, user)[i],
            ),
    ensures
        page_of(v, user, start, stop).len() == clip(stop, history_of(v, user).len() as int)
            - clip(start, history_of(v, user).len() as int),
{
    let h = history_of(v, user);
    let rev = h.reverse();
    let ids = page_ids(v, user, start, stop);
    assert forall|i: int| 0 <= i < ids.len() implies v.records.contains_key(
        #[trigger] ids[i],
    ) by {
        let k = clip(start, rev.len() as int) + i;
        assert(ids[i] == rev[k]);
        assert(rev[k] == h[h.len() - 1 - k]);
    }
    lemma_resolve_all_present(v, ids);
}

/// Law: round trip — the record minted by a successful `generate` is
/// retrievable under its code afterwards, and it carries the original
/// target URL.
pub proof fn lemma_generate_round_trip(pre: RepoView, post: RepoView, url: Seq<char>, u: UrlView)
    requires
        generate_ok(pre, post, url, u),
    ensures
        get_spec(post, u.id) == Some(u),
        u.url == url,
{
}

/// Law: round trip through `shorten` — the record minted by a successful
/// `generate_for_user` is likewise retrievable under its code, and it
/// carries the original target URL.
pub proof fn lemma_shorten_round_trip(
    pre: RepoView,
    post: RepoView,
    url: Seq<char>,
    user: Seq<char>,
    u: UrlView,
)
    requires
        generate_for_user_ok(pre, post, url, user, u),
    ensures
        get_spec(post, u.id) == Some(u),
        u.url == url,
{
}

/// Law: linearizable increments accumulate — after `k` successful
/// `increment_counter` calls on a record whose visit counter starts at `c`,
/// the record reads `c + k`, however the calls interleaved. `states` is the
/// chain of store states the serialized calls pass through; each adjacent
/// pair is one successful increment, as `increment_counter`'s contract
/// states it.
pub proof fn lemma_increments_accumulate(states: Seq<RepoView>, id: Seq<char>)
    requires
        states.len() >= 1,
        forall|i: int|
            0 <= i < states.len() - 1 ==> increment_ok(#[trigger] states[i], states[i + 1], id),
        states[0].records.contains_key(id),
        states[0].records[id].count + states.len() - 1 <= u64::MAX,
    ensures
        get_spec(states.last(), id) matches Some(u) && u.count == states[0].records[id].count
            + states.len() - 1,
    decreases states.len(),
{
    if states.len() > 1 {
        let front = states.drop_last();
        assert forall|i: int| 0 <= i < front.len() - 1 implies increment_ok(
            #[trigger] front[i],
            front[i + 1],
            id,
        ) by {
            assert(front[i] == states[i]);
            assert(front[i + 1] == states[i + 1]);
        }
        assert(front[0] == states[0]);
        lemma_increments_accumulate(front, id);
        assert(front.last() == states[states.len() - 2]);
        assert(increment_ok(states[states.len() - 2], states[states.len() - 1], id));
    }
}

/// Law: history ordering — creating record `a` and then record `b` for the
/// same user lists `b` before `a` on the first page of that user's history
/// (reverse-chronological order).
pub proof fn lemma_history_reverse_chronological(
    s0: RepoView,
    s1: RepoView,
    s2: RepoView,
    url_a: Seq<char>,
    url_b: Seq<char>,
    user: Seq<char>,
    a: UrlView,
    b: UrlView,
)
    requires
        generate_for_user_ok(s0, s1, url_a, user, a),
        generate_for_user_ok(s1, s2, url_b, user, b),
        history_of(s0, user).len() + 2 <= isize::MAX,
    ensures
        page_of(s2, user, 0, 2) == seq![b, a],
{
    assert(s1.records.contains_key(a.id));
    assert(a.id != b.id);
    let h0 = history_of(s0, user);
    let h2 = history_of(s2, user);
    assert(history_of(s1, user) =~= h0.push(a.id));
    assert(h2 =~= h0.push(a.id).push(b.id));
    let rev = h2.reverse();
    assert(rev.len() == h0.len() + 2);
    assert(rev[0] == h2[h2.len() - 1]);
    assert(rev[1] == h2[h2.len() - 2]);
    assert(rev[0] == b.id);
    assert(rev[1] == a.id);
    let ids = page_ids(s2, user, 0, 2);
    assert(ids =~= seq![b.id, a.id]);
    assert(s2.records.contains_key(b.id) && s2.records[b.id] == b);
    assert(s2.records.contains_key(a.id) && s2.records[a.id] == a);
    assert(ids.drop_last() =~= seq![b.id]);
    assert(seq![b.id].drop_last() =~= Seq::<Seq<char>>::empty());
    assert(resolve_ids(s2, Seq::<Seq<char>>::empty()) =~= Seq::<UrlView>::empty());
    assert(resolve_ids(s2, seq![b.id]) =~= seq![b]);
    assert(resolve_ids(s2, ids) =~= seq![b, a]);
}

} // verus!
