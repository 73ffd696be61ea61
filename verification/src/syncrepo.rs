//! The layout of the sync repository and the rules for what it keeps:
//! `sessions/<id>/transcript.jsonl`, `sessions/<id>/meta.json` and
//! `devices/<device>.json`.
use vstd::prelude::*;

use crate::model::{MetaView, SessionMeta, SessionSummary};
use crate::paths::{join_path, path_join};
use crate::text::{append_str, lemma_lex_asymmetric, lemma_lex_irreflexive, lemma_lex_total,
    lemma_lex_transitive, lex_lt, str_lt};

verus! {

broadcast use vstd::string::group_string_axioms;

/// The sync repository rooted at `root` (the mirror's working copy).
#[derive(Debug)]
pub struct SyncRepo {
    pub root: String,
}

/// `sessions/<id>` under the repository root.
pub open spec fn session_dir_of(root: Seq<char>, session_id: Seq<char>) -> Seq<char> {
    path_join(path_join(root, "sessions"@), session_id)
}

impl SyncRepo {
    /// The directory holding every session.
    pub fn sessions_dir(&self) -> (r: String)
        ensures
            r@ == path_join(self.root@, "sessions"@),
    {
        join_path(self.root.as_str(), "sessions")
    }

    /// The directory of one session.
    pub fn session_dir(&self, session_id: &str) -> (r: String)
        ensures
            r@ == session_dir_of(self.root@, session_id@),
    {
        let sessions = join_path(self.root.as_str(), "sessions");
        join_path(sessions.as_str(), session_id)
    }

    /// Where a session's transcript is stored.
    pub fn transcript_path(&self, session_id: &str) -> (r: String)
        ensures
            r@ == path_join(session_dir_of(self.root@, session_id@), "transcript.jsonl"@),
    {
        let dir = self.session_dir(session_id);
        join_path(dir.as_str(), "transcript.jsonl")
    }

    /// Where a session's metadata is stored.
    pub fn meta_path(&self, session_id: &str) -> (r: String)
        ensures
            r@ == path_join(session_dir_of(self.root@, session_id@), "meta.json"@),
    {
        let dir = self.session_dir(session_id);
        join_path(dir.as_str(), "meta.json")
    }

    /// Where a device's entry is stored: `devices/<device>.json`.
    pub fn device_info_path(&self, device_id: &str) -> (r: String)
        ensures
            r@ == path_join(path_join(self.root@, "devices"@), device_id@ + ".json"@),
    {
        let dir = join_path(self.root.as_str(), "devices");
        let mut file = crate::text::owned(device_id);
        append_str(&mut file, ".json");
        join_path(dir.as_str(), file.as_str())
    }
}

/// A metadata write takes effect when nothing readable is stored yet, or
/// when the stored copy was edited strictly earlier (last writer wins by
/// `updated_at`, compared as strings).
pub open spec fn write_wins(existing: Option<MetaView>, incoming: MetaView) -> bool {
    match existing {
        None => true,
        Some(e) => lex_lt(e.updated_at, incoming.updated_at),
    }
}

/// What the repository holds after writing `incoming` over `existing`.
pub open spec fn stored_after(existing: Option<MetaView>, incoming: MetaView) -> MetaView {
    if write_wins(existing, incoming) {
        incoming
    } else {
        existing.unwrap()
    }
}

/// Whether writing `incoming` replaces the stored metadata `existing`.
pub fn meta_write_wins(existing: Option<&SessionMeta>, incoming: &SessionMeta) -> (r: bool)
    ensures
        r == write_wins(
            match existing {
                Some(e) => Some(e@),
                None => None,
            },
            incoming@,
        ),
{
    match existing {
        None => true,
        Some(e) => str_lt(e.updated_at.as_str(), incoming.updated_at.as_str()),
    }
}

/// Last writer wins: an older or equally old write leaves the stored
/// metadata as it was, a newer one replaces it, and what is stored after a
/// write is never older than what was stored before nor than what was written.
pub proof fn lemma_lww_keeps_newest(existing: MetaView, incoming: MetaView)
    ensures
        !lex_lt(existing.updated_at, incoming.updated_at) ==> stored_after(Some(existing), incoming)
            == existing,
        lex_lt(existing.updated_at, incoming.updated_at) ==> stored_after(Some(existing), incoming)
            == incoming,
        !lex_lt(stored_after(Some(existing), incoming).updated_at, existing.updated_at),
        !lex_lt(stored_after(Some(existing), incoming).updated_at, incoming.updated_at),
{
    lemma_lex_irreflexive(existing.updated_at);
    lemma_lex_irreflexive(incoming.updated_at);
    lemma_lex_total(existing.updated_at, incoming.updated_at);
    if lex_lt(existing.updated_at, incoming.updated_at) {
        lemma_lex_asymmetric(existing.updated_at, incoming.updated_at);
    }
}

/// Writing the same metadata twice leaves what writing it once leaves.
pub proof fn lemma_lww_idempotent(existing: Option<MetaView>, incoming: MetaView)
    ensures
        stored_after(Some(stored_after(existing, incoming)), incoming) == stored_after(
            existing,
            incoming,
        ),
{
    lemma_lex_irreflexive(incoming.updated_at);
    if let Some(e) = existing {
        if !lex_lt(e.updated_at, incoming.updated_at) {
            lemma_lex_total(e.updated_at, incoming.updated_at);
            if lex_lt(incoming.updated_at, e.updated_at) {
                lemma_lex_asymmetric(incoming.updated_at, e.updated_at);
            }
        }
    }
}

/// Two writes with different edit times leave the same metadata whichever
/// arrives first: replicas that see the same writes agree.
pub proof fn lemma_lww_order_independent(existing: Option<MetaView>, a: MetaView, b: MetaView)
    requires
        a.updated_at != b.updated_at,
    ensures
        stored_after(Some(stored_after(existing, a)), b) == stored_after(
            Some(stored_after(existing, b)),
            a,
        ),
{
    lemma_lex_total(a.updated_at, b.updated_at);
    lemma_lex_irreflexive(a.updated_at);
    lemma_lex_irreflexive(b.updated_at);
    if lex_lt(a.updated_at, b.updated_at) {
        lemma_lex_asymmetric(a.updated_at, b.updated_at);
    } else {
        lemma_lex_asymmetric(b.updated_at, a.updated_at);
    }
    if let Some(e) = existing {
        lemma_lex_total(e.updated_at, a.updated_at);
        lemma_lex_total(e.updated_at, b.updated_at);
        lemma_lex_irreflexive(e.updated_at);
        if lex_lt(e.updated_at, a.updated_at) {
            lemma_lex_asymmetric(e.updated_at, a.updated_at);
        }
        if lex_lt(e.updated_at, b.updated_at) {
            lemma_lex_asymmetric(e.updated_at, b.updated_at);
        }
        if lex_lt(a.updated_at, e.updated_at) {
            lemma_lex_asymmetric(a.updated_at, e.updated_at);
        }
        if lex_lt(b.updated_at, e.updated_at) {
            lemma_lex_asymmetric(b.updated_at, e.updated_at);
        }
        if lex_lt(a.updated_at, b.updated_at) && lex_lt(b.updated_at, e.updated_at) {
            lemma_lex_transitive(a.updated_at, b.updated_at, e.updated_at);
        }
        if lex_lt(b.updated_at, a.updated_at) && lex_lt(a.updated_at, e.updated_at) {
            lemma_lex_transitive(b.updated_at, a.updated_at, e.updated_at);
        }
        if lex_lt(e.updated_at, a.updated_at) && lex_lt(a.updated_at, b.updated_at) {
            lemma_lex_transitive(e.updated_at, a.updated_at, b.updated_at);
        }
        if lex_lt(e.updated_at, b.updated_at) && lex_lt(b.updated_at, a.updated_at) {
            lemma_lex_transitive(e.updated_at, b.updated_at, a.updated_at);
        }
    }
}

/// Something listed by when it was last active.
pub trait Activity {
    /// The last-activity timestamp.
    spec fn activity(&self) -> Seq<char>;

    /// The last-activity timestamp.
    fn last_active(&self) -> (r: &String)
        ensures
            r@ == self.activity(),
    ;
}

impl Activity for SessionMeta {
    open spec fn activity(&self) -> Seq<char> {
        self.last_active_at@
    }

    fn last_active(&self) -> (r: &String) {
        &self.last_active_at
    }
}

impl Activity for SessionSummary {
    open spec fn activity(&self) -> Seq<char> {
        self.last_active_at@
    }

    fn last_active(&self) -> (r: &String) {
        &self.last_active_at
    }
}

/// Where `x` goes in `sorted` (most recent first) when it comes before every
/// item of `sorted` in the input: ahead of the first item that is not more
/// recent than it.
pub open spec fn insert_position<T: Activity>(sorted: Seq<T>, x: T) -> int
    decreases sorted.len(),
{
    if sorted.len() == 0 {
        0
    } else if !lex_lt(x.activity(), sorted[0].activity()) {
        0
    } else {
        1 + insert_position(sorted.drop_first(), x)
    }
}

/// `s` ordered most recently active first, items that tie keeping their
/// input order (a stable sort by descending `last_active_at`).
pub open spec fn by_activity<T: Activity>(s: Seq<T>) -> Seq<T>
    decreases s.len(),
{
    if s.len() == 0 {
        s
    } else {
        let rest = by_activity(s.drop_first());
        rest.insert(insert_position(rest, s[0]), s[0])
    }
}

/// No item is less recently active than one after it.
pub open spec fn most_recent_first<T: Activity>(s: Seq<T>) -> bool {
    forall|i: int, j: int|
        0 <= i < j < s.len() ==> !lex_lt(#[trigger] s[i].activity(), #[trigger] s[j].activity())
}

proof fn lemma_insert_position<T: Activity>(sorted: Seq<T>, x: T)
    ensures
        0 <= insert_position(sorted, x) <= sorted.len(),
        forall|k: int|
            0 <= k < insert_position(sorted, x) ==> lex_lt(x.activity(), #[trigger] sorted[k].activity()),
        insert_position(sorted, x) < sorted.len() ==> !lex_lt(
            x.activity(),
            sorted[insert_position(sorted, x)].activity(),
        ),
    decreases sorted.len(),
{
    if sorted.len() > 0 && lex_lt(x.activity(), sorted[0].activity()) {
        lemma_insert_position(sorted.drop_first(), x);
        assert forall|k: int|
            0 <= k < insert_position(sorted, x) implies lex_lt(x.activity(), #[trigger] sorted[k].activity()) by {
            if k > 0 {
                assert(sorted[k] == sorted.drop_first()[k - 1]);
            }
        }
    }
}

proof fn lemma_not_lt_transitive(a: Seq<char>, b: Seq<char>, c: Seq<char>)
    requires
        !lex_lt(a, b),
        !lex_lt(b, c),
    ensures
        !lex_lt(a, c),
{
    lemma_lex_total(a, b);
    lemma_lex_total(b, c);
    if lex_lt(a, c) {
        if a == b {
        } else if b == c {
        } else {
            lemma_lex_transitive(c, b, a);
            lemma_lex_asymmetric(c, a);
        }
    }
}

/// Ordering by activity sorts most recent first and keeps every item.
pub proof fn lemma_by_activity<T: Activity>(s: Seq<T>)
    ensures
        most_recent_first(by_activity(s)),
        by_activity(s).to_multiset() == s.to_multiset(),
        by_activity(s).len() == s.len(),
    decreases s.len(),
{
    broadcast use vstd::seq_lib::to_multiset_insert, vstd::seq_lib::to_multiset_build;

    if s.len() > 0 {
        let rest = by_activity(s.drop_first());
        lemma_by_activity(s.drop_first());
        let x = s[0];
        let p = insert_position(rest, x);
        lemma_insert_position(rest, x);
        let out = rest.insert(p, x);
        assert forall|i: int, j: int|
            0 <= i < j < out.len() implies !lex_lt(
            #[trigger] out[i].activity(),
            #[trigger] out[j].activity(),
        ) by {
            if j < p {
                assert(out[i] == rest[i] && out[j] == rest[j]);
            } else if j == p {
                assert(out[i] == rest[i]);
                lemma_lex_asymmetric(x.activity(), rest[i].activity());
            } else if i > p {
                assert(out[i] == rest[i - 1] && out[j] == rest[j - 1]);
            } else if i == p {
                assert(out[j] == rest[j - 1]);
                if j - 1 > p {
                    assert(!lex_lt(rest[p].activity(), rest[j - 1].activity()));
                } else {
                    lemma_lex_irreflexive(rest[p].activity());
                }
                lemma_not_lt_transitive(x.activity(), rest[p].activity(), rest[j - 1].activity());
            } else {
                assert(out[i] == rest[i] && out[j] == rest[j - 1]);
            }
        }
        assert(s =~= seq![x] + s.drop_first());
        vstd::seq_lib::lemma_multiset_commutative(seq![x], s.drop_first());
        assert(s.drop_first().push(x).to_multiset() == s.drop_first().to_multiset().insert(x));
        vstd::seq_lib::lemma_multiset_commutative(s.drop_first(), seq![x]);
        assert(s.drop_first() + seq![x] =~= s.drop_first().push(x));
    }
}

/// Orders items most recently active first, ties in input order.
pub fn sort_by_activity<T: Activity>(items: Vec<T>) -> (r: Vec<T>)
    ensures
        r@ == by_activity(items@),
{
    let ghost s = items@;
    let mut rest = items;
    let mut out: Vec<T> = Vec::new();
    assert(s.skip(s.len() as int) =~= Seq::<T>::empty());
    while rest.len() > 0
        invariant
            rest@ == s.take(rest@.len() as int),
            rest@.len() <= s.len(),
            out@ == by_activity(s.skip(rest@.len() as int)),
        decreases rest@.len(),
    {
        let n = rest.len();
        let x = rest.pop().unwrap();
        assert(rest@ =~= s.take(n - 1));
        let ghost tail = s.skip(n - 1);
        assert(tail[0] == x);
        assert(tail.drop_first() =~= s.skip(n as int));
        let mut k: usize = 0;
        assert(out@.skip(0) =~= out@);
        while k < out.len() && str_lt(x.last_active().as_str(), out[k].last_active().as_str())
            invariant
                k <= out@.len(),
                insert_position(out@, x) == k + insert_position(out@.skip(k as int), x),
            decreases out@.len() - k,
        {
            assert(out@.skip(k as int).drop_first() =~= out@.skip(k + 1));
            k = k + 1;
        }
        proof {
            if k < out@.len() {
                assert(out@.skip(k as int)[0] == out@[k as int]);
            }
        }
        out.insert(k, x);
    }
    assert(s.skip(0) =~= s);
    out
}

} // verus!
