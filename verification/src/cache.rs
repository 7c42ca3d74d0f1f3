//! The response store consumed by the correlation/wait engine: each
//! correlation id keys a queue of values pushed by the response-ingestion
//! path and popped, oldest first, by the waiter.

use vstd::prelude::*;

use crate::errors::NeoiotError;
use crate::text::str_eq;

verus! {

/// `m` with `v` appended to the queue at `k`.
pub open spec fn store_push(
    m: Map<Seq<char>, Seq<Seq<char>>>,
    k: Seq<char>,
    v: Seq<char>,
) -> Map<Seq<char>, Seq<Seq<char>>> {
    let q = if m.dom().contains(k) {
        m[k]
    } else {
        Seq::<Seq<char>>::empty()
    };
    m.insert(k, q.push(v))
}

/// Whether a pop on `k` finds a value.
pub open spec fn store_has_value(m: Map<Seq<char>, Seq<Seq<char>>>, k: Seq<char>) -> bool {
    m.dom().contains(k) && m[k].len() > 0
}

/// `m` after the oldest value at `k` has been consumed.
pub open spec fn store_popped(m: Map<Seq<char>, Seq<Seq<char>>>, k: Seq<char>) -> Map<
    Seq<char>,
    Seq<Seq<char>>,
>
    recommends
        store_has_value(m, k),
{
    m.insert(k, m[k].drop_first())
}

/// The key-value list store the wait engine reads and the response
/// ingestion path writes. `contents` is the store as the call observes
/// it; a conforming implementation answers for the state it sees at that
/// moment.
pub trait Cache {
    /// The queues currently held, keyed by correlation id, oldest value
    /// first.
    spec fn contents(&self) -> Map<Seq<char>, Seq<Seq<char>>>;

    /// Pops the oldest value at `key`, blocking up to `timeout` seconds
    /// for one to appear; a key holding no value times out.
    fn block_pop(&mut self, key: &str, timeout: usize) -> (r: Result<String, NeoiotError>)
        ensures
            store_has_value(old(self).contents(), key@) ==> (r matches Ok(v) && v@ == old(
                self,
            ).contents()[key@][0] && final(self).contents() == store_popped(
                old(self).contents(),
                key@,
            )),
            !store_has_value(old(self).contents(), key@) ==> r is Err && final(self).contents()
                == old(self).contents(),
    ;

    /// Appends `value` to the queue at `key`.
    fn lpush(&mut self, key: &str, value: &str) -> (r: Result<(), NeoiotError>)
        ensures
            r is Ok ==> final(self).contents() == store_push(old(self).contents(), key@, value@),
            r is Err ==> final(self).contents() == old(self).contents(),
    ;
}

/// One keyed queue of an in-memory store.
struct CacheEntry {
    key: String,
    queue: Vec<String>,
}

/// An in-memory response store, the swappable stand-in for the external
/// list store. It never blocks: a pop on a key holding no value times out
/// at once, which respects the wait engine's upper bound.
pub struct MemoryCache {
    entries: Vec<CacheEntry>,
}

/// The map a list of keyed queues denotes; the earliest entry for a key
/// wins, though the operations below never create a duplicate key.
spec fn entries_map(s: Seq<CacheEntry>) -> Map<Seq<char>, Seq<Seq<char>>>
    decreases s.len(),
{
    if s.len() == 0 {
        Map::<Seq<char>, Seq<Seq<char>>>::empty()
    } else {
        entries_map(s.drop_first()).insert(s[0].key@, s[0].queue.deep_view())
    }
}

proof fn lemma_entries_map_first(s: Seq<CacheEntry>, k: Seq<char>, i: int)
    requires
        0 <= i < s.len(),
        s[i].key@ == k,
        forall|j: int| 0 <= j < i ==> (#[trigger] s[j].key@) != k,
    ensures
        entries_map(s).dom().contains(k),
        entries_map(s)[k] == s[i].queue.deep_view(),
    decreases s.len(),
{
    if i > 0 {
        let t = s.drop_first();
        assert(forall|j: int| 0 <= j < i - 1 ==> (#[trigger] t[j].key@) != k) by {
            assert(forall|j: int| 0 <= j < i - 1 ==> #[trigger] t[j] == s[j + 1]);
        }
        assert(t[i - 1] == s[i]);
        lemma_entries_map_first(t, k, i - 1);
        assert(s[0].key@ != k);
    }
}

proof fn lemma_entries_map_absent(s: Seq<CacheEntry>, k: Seq<char>)
    requires
        forall|j: int| 0 <= j < s.len() ==> (#[trigger] s[j].key@) != k,
    ensures
        !entries_map(s).dom().contains(k),
    decreases s.len(),
{
    if s.len() > 0 {
        let t = s.drop_first();
        assert(forall|j: int| 0 <= j < t.len() ==> (#[trigger] t[j].key@) != k) by {
            assert(forall|j: int| 0 <= j < t.len() ==> #[trigger] t[j] == s[j + 1]);
        }
        lemma_entries_map_absent(t, k);
    }
}

proof fn lemma_entries_map_update(s: Seq<CacheEntry>, k: Seq<char>, i: int, e: CacheEntry)
    requires
        0 <= i < s.len(),
        s[i].key@ == k,
        forall|j: int| 0 <= j < i ==> (#[trigger] s[j].key@) != k,
        e.key@ == k,
    ensures
        entries_map(s.update(i, e)) == entries_map(s).insert(k, e.queue.deep_view()),
    decreases s.len(),
{
    let su = s.update(i, e);
    if i == 0 {
        assert(su.drop_first() =~= s.drop_first());
        assert(su[0] == e);
        assert(entries_map(su) =~= entries_map(s).insert(k, e.queue.deep_view()));
    } else {
        let t = s.drop_first();
        assert(forall|j: int| 0 <= j < i - 1 ==> (#[trigger] t[j].key@) != k) by {
            assert(forall|j: int| 0 <= j < i - 1 ==> #[trigger] t[j] == s[j + 1]);
        }
        assert(t[i - 1] == s[i]);
        lemma_entries_map_update(t, k, i - 1, e);
        assert(su.drop_first() =~= t.update(i - 1, e));
        assert(su[0] == s[0]);
        assert(s[0].key@ != k);
        assert(entries_map(su) == entries_map(t.update(i - 1, e)).insert(
            s[0].key@,
            s[0].queue.deep_view(),
        ));
        assert(entries_map(t).insert(k, e.queue.deep_view()).insert(
            s[0].key@,
            s[0].queue.deep_view(),
        ) =~= entries_map(t).insert(s[0].key@, s[0].queue.deep_view()).insert(
            k,
            e.queue.deep_view(),
        ));
    }
}

proof fn lemma_entries_map_push(s: Seq<CacheEntry>, e: CacheEntry)
    requires
        forall|j: int| 0 <= j < s.len() ==> (#[trigger] s[j].key@) != e.key@,
    ensures
        entries_map(s.push(e)) == entries_map(s).insert(e.key@, e.queue.deep_view()),
    decreases s.len(),
{
    if s.len() == 0 {
        assert(s.push(e)[0] == e);
        assert(s.push(e).drop_first() =~= s);
        assert(entries_map(s.push(e)) =~= entries_map(s).insert(e.key@, e.queue.deep_view()));
    } else {
        let t = s.drop_first();
        assert(forall|j: int| 0 <= j < t.len() ==> (#[trigger] t[j].key@) != e.key@) by {
            assert(forall|j: int| 0 <= j < t.len() ==> #[trigger] t[j] == s[j + 1]);
        }
        lemma_entries_map_push(t, e);
        assert(s.push(e)[0] == s[0]);
        assert(s.push(e).drop_first() =~= t.push(e));
        assert(s[0].key@ != e.key@);
        assert(entries_map(s.push(e)) == entries_map(t.push(e)).insert(
            s[0].key@,
            s[0].queue.deep_view(),
        ));
        assert(entries_map(t).insert(e.key@, e.queue.deep_view()).insert(
            s[0].key@,
            s[0].queue.deep_view(),
        ) =~= entries_map(t).insert(s[0].key@, s[0].queue.deep_view()).insert(
            e.key@,
            e.queue.deep_view(),
        ));
    }
}

impl MemoryCache {
    /// An empty store.
    pub fn new() -> (r: Self)
        ensures
            r.contents() == Map::<Seq<char>, Seq<Seq<char>>>::empty(),
    {
        MemoryCache { entries: Vec::new() }
    }
}

impl Cache for MemoryCache {
    closed spec fn contents(&self) -> Map<Seq<char>, Seq<Seq<char>>> {
        entries_map(self.entries@)
    }

    fn block_pop(&mut self, key: &str, timeout: usize) -> (r: Result<String, NeoiotError>) {
        let n = self.entries.len();
        let mut i: usize = 0;
        while i < n
            invariant
                *self == *old(self),
                n == self.entries@.len(),
                i <= n,
                forall|j: int| 0 <= j < i ==> (#[trigger] self.entries@[j].key@) != key@,
            decreases n - i,
        {
            if str_eq(self.entries[i].key.as_str(), key) {
                if self.entries[i].queue.len() == 0 {
                    proof {
                        lemma_entries_map_first(self.entries@, key@, i as int);
                        assert(self.entries@[i as int].queue.deep_view().len() == 0);
                    }
                    return Err(NeoiotError::Timeout);
                }
                proof {
                    lemma_entries_map_first(self.entries@, key@, i as int);
                }
                let ghost s0 = self.entries@;
                let ghost old_q = self.entries@[i as int].queue.deep_view();
                let mut e = self.entries.remove(i);
                let val = e.queue.remove(0);
                self.entries.insert(i, e);
                proof {
                    assert(e.queue.deep_view() =~= old_q.drop_first());
                    assert(val@ == old_q[0]);
                    assert(self.entries@ =~= s0.update(i as int, e));
                    lemma_entries_map_update(s0, key@, i as int, e);
                }
                return Ok(val);
            }
            i = i + 1;
        }
        proof {
            lemma_entries_map_absent(self.entries@, key@);
        }
        Err(NeoiotError::Timeout)
    }

    fn lpush(&mut self, key: &str, value: &str) -> (r: Result<(), NeoiotError>) {
        let n = self.entries.len();
        let mut i: usize = 0;
        while i < n
            invariant
                *self == *old(self),
                n == self.entries@.len(),
                i <= n,
                forall|j: int| 0 <= j < i ==> (#[trigger] self.entries@[j].key@) != key@,
            decreases n - i,
        {
            if str_eq(self.entries[i].key.as_str(), key) {
                proof {
                    lemma_entries_map_first(self.entries@, key@, i as int);
                }
                let ghost s0 = self.entries@;
                let ghost old_q = self.entries@[i as int].queue.deep_view();
                let mut e = self.entries.remove(i);
                e.queue.push(value.to_owned());
                self.entries.insert(i, e);
                proof {
                    assert(e.queue.deep_view() =~= old_q.push(value@));
                    assert(self.entries@ =~= s0.update(i as int, e));
                    lemma_entries_map_update(s0, key@, i as int, e);
                }
                return Ok(());
            }
            i = i + 1;
        }
        proof {
            lemma_entries_map_absent(self.entries@, key@);
        }
        let ghost s0 = self.entries@;
        let mut queue: Vec<String> = Vec::new();
        queue.push(value.to_owned());
        let entry = CacheEntry { key: key.to_owned(), queue };
        proof {
            assert(entry.queue.deep_view() =~= Seq::<Seq<char>>::empty().push(value@));
        }
        self.entries.push(entry);
        proof {
            lemma_entries_map_push(s0, entry);
        }
        Ok(())
    }
}

/// Pushes to distinct correlation keys never interfere: after one push to
/// each of two fresh keys, each key pops exactly its own payload, and
/// consuming one leaves the other untouched.
pub proof fn lemma_no_cross_delivery(
    m: Map<Seq<char>, Seq<Seq<char>>>,
    k1: Seq<char>,
    k2: Seq<char>,
    v1: Seq<char>,
    v2: Seq<char>,
)
    requires
        k1 != k2,
        !store_has_value(m, k1),
        !store_has_value(m, k2),
    ensures
        ({
            let m2 = store_push(store_push(m, k1, v1), k2, v2);
            &&& store_has_value(m2, k1)
            &&& m2[k1][0] == v1
            &&& store_has_value(m2, k2)
            &&& m2[k2][0] == v2
            &&& store_popped(m2, k1)[k2][0] == v2
            &&& store_popped(m2, k2)[k1][0] == v1
        }),
{
}

} // verus!
