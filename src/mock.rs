use vstd::prelude::*;
use crate::db::{db_t, get_result, opt_bytes, CallReply, DbHost, ReadReply, ScanReply};
use crate::error::{ErrorKind, STATUS_BAD_ARGUMENT, STATUS_OK};
use crate::iterator::{gas_meter_t, iterator_t, NextDb, NextReply};
use crate::lex::{
    bytes_equal, lemma_lex_asymmetric, lemma_lex_irreflexive, lemma_lex_total, lemma_lex_transitive,
    lex_less, lex_lt, strictly_decreasing, strictly_increasing,
};
use crate::memory::{byte_views, copy_bytes, UnmanagedVector};
use crate::order::{order_of_code, Order, ORDER_DESCENDING};

verus! {

/// The gas that the in-memory store charges for each call.
pub const MEMORY_CALL_GAS: u64 = 1;

/// The value stored under `k`, if any.
pub open spec fn read_value(m: Map<Seq<u8>, Seq<u8>>, k: Seq<u8>) -> Option<Seq<u8>> {
    if m.contains_key(k) {
        Some(m[k])
    } else {
        None
    }
}

/// Whether `k` lies between the bounds: `start` inclusive, `end` exclusive,
/// an absent bound being open.
pub open spec fn key_in_range(k: Seq<u8>, start: Option<Seq<u8>>, end: Option<Seq<u8>>) -> bool {
    &&& (start matches Some(s) ==> !lex_lt(k, s))
    &&& (end matches Some(e) ==> lex_lt(k, e))
}

/// The keys of `ks` that lie in the range, in the order of `ks`.
pub open spec fn select_keys(ks: Seq<Seq<u8>>, start: Option<Seq<u8>>, end: Option<Seq<u8>>) -> Seq<
    Seq<u8>,
>
    decreases ks.len(),
{
    if ks.len() == 0 {
        Seq::empty()
    } else {
        let rest = select_keys(ks.drop_last(), start, end);
        if key_in_range(ks.last(), start, end) {
            rest.push(ks.last())
        } else {
            rest
        }
    }
}

/// `ks` in the order of a scan: as it is, or reversed.
pub open spec fn in_order(ks: Seq<Seq<u8>>, descending: bool) -> Seq<Seq<u8>> {
    if descending {
        ks.reverse()
    } else {
        ks
    }
}

/// Reading a key just written gives the value written; reading a key just
/// removed gives no value. Both go through the decoding of a read reply.
pub proof fn lemma_write_then_read(store: Map<Seq<u8>, Seq<u8>>, k: Seq<u8>, v: Seq<u8>)
    ensures
        get_result(k, STATUS_OK, read_value(store.insert(k, v), k)) == Ok::<
            _,
            (ErrorKind, Seq<char>),
        >(Some(v)),
        get_result(k, STATUS_OK, read_value(store.remove(k), k)) == Ok::<
            _,
            (ErrorKind, Seq<char>),
        >(None::<Seq<u8>>),
{
}

/// Where `start >= end`, a scan selects no key, in either order.
pub proof fn lemma_empty_range(ks: Seq<Seq<u8>>, start: Seq<u8>, end: Seq<u8>, descending: bool)
    requires
        !lex_lt(start, end),
    ensures
        in_order(select_keys(ks, Some(start), Some(end)), descending).len() == 0,
    decreases ks.len(),
{
    if ks.len() > 0 {
        lemma_empty_range(ks.drop_last(), start, end, descending);
        let k = ks.last();
        if key_in_range(k, Some(start), Some(end)) {
            if start == end {
                lemma_lex_asymmetric(k, end);
            } else {
                lemma_lex_total(start, end);
                lemma_lex_transitive(k, end, start);
            }
        }
        assert(select_keys(ks.drop_last(), Some(start), Some(end)).len() == 0);
    }
    let sel = select_keys(ks, Some(start), Some(end));
    assert(sel.len() == 0);
    if descending {
        assert(sel.reverse().len() == 0);
    }
}

/// A scan without bounds selects every key, in the order given.
pub proof fn lemma_unbounded_selects_all(ks: Seq<Seq<u8>>)
    ensures
        select_keys(ks, None, None) == ks,
    decreases ks.len(),
{
    if ks.len() > 0 {
        lemma_unbounded_selects_all(ks.drop_last());
        assert(ks.drop_last().push(ks.last()) =~= ks);
    }
}

/// Over a store whose keys are strictly increasing, an unbounded ascending
/// scan yields strictly increasing keys, a descending one strictly decreasing
/// keys, and each is the reverse of the other.
pub proof fn lemma_full_scan_order(ks: Seq<Seq<u8>>)
    requires
        strictly_increasing(ks),
    ensures
        in_order(select_keys(ks, None, None), false) == ks,
        strictly_increasing(in_order(select_keys(ks, None, None), false)),
        strictly_decreasing(in_order(select_keys(ks, None, None), true)),
        in_order(select_keys(ks, None, None), true) == in_order(
            select_keys(ks, None, None),
            false,
        ).reverse(),
        in_order(select_keys(ks, None, None), true).reverse() == in_order(
            select_keys(ks, None, None),
            false,
        ),
{
    lemma_unbounded_selects_all(ks);
    let d = ks.reverse();
    assert forall|i: int, j: int| 0 <= i < j < d.len() implies lex_lt(
        #[trigger] d[j],
        #[trigger] d[i],
    ) by {
        assert(d[i] == ks[ks.len() - 1 - i]);
        assert(d[j] == ks[ks.len() - 1 - j]);
    }
    assert(d.reverse() =~= ks);
}

fn key_in_range_exec(k: &[u8], start: Option<&[u8]>, end: Option<&[u8]>) -> (r: bool)
    ensures
        r == key_in_range(k@, opt_bytes(start), opt_bytes(end)),
{
    let after_start = match start {
        Some(s) => !lex_less(k, s),
        None => true,
    };
    let before_end = match end {
        Some(e) => lex_less(k, e),
        None => true,
    };
    after_start && before_end
}

/// Key-value pairs held in memory, keys in strictly increasing order.
pub struct SortedEntries {
    keys: Vec<Vec<u8>>,
    values: Vec<Vec<u8>>,
    contents: Ghost<Map<Seq<u8>, Seq<u8>>>,
}

impl View for SortedEntries {
    type V = Map<Seq<u8>, Seq<u8>>;

    closed spec fn view(&self) -> Map<Seq<u8>, Seq<u8>> {
        self.contents@
    }
}

/// A cursor over a snapshot of the keys in a range.
pub struct MemoryCursor {
    keys: Vec<Vec<u8>>,
    values: Vec<Vec<u8>>,
    descending: bool,
    pos: usize,
}

impl SortedEntries {
    /// The stored keys in increasing order.
    pub closed spec fn keys_in_order(&self) -> Seq<Seq<u8>> {
        byte_views(self.keys@)
    }

    pub closed spec fn value_seq(&self) -> Seq<Seq<u8>> {
        byte_views(self.values@)
    }

    pub closed spec fn wf(&self) -> bool {
        &&& self.keys@.len() == self.values@.len()
        &&& strictly_increasing(self.keys_in_order())
        &&& forall|i: int|
            0 <= i < self.keys@.len() ==> {
                &&& self.contents@.contains_key(#[trigger] self.keys_in_order()[i])
                &&& self.contents@[self.keys_in_order()[i]] == self.value_seq()[i]
            }
        &&& forall|k: Seq<u8>|
            #[trigger] self.contents@.contains_key(k) ==> exists|i: int|
                0 <= i < self.keys@.len() && self.keys_in_order()[i] == k
    }

    /// The stored keys are strictly increasing and are exactly the keys of the map.
    pub proof fn lemma_keys(&self)
        requires
            self.wf(),
        ensures
            strictly_increasing(self.keys_in_order()),
            forall|k: Seq<u8>| self@.contains_key(k) <==> self.keys_in_order().contains(k),
    {
        assert forall|k: Seq<u8>| self@.contains_key(k) <==> self.keys_in_order().contains(k) by {
            if self@.contains_key(k) {
                let i = choose|i: int| 0 <= i < self.keys@.len() && self.keys_in_order()[i] == k;
                assert(self.keys_in_order()[i] == k);
            }
            if self.keys_in_order().contains(k) {
                let i = choose|i: int| 0 <= i < self.keys_in_order().len() && self.keys_in_order()[i] == k;
                assert(self.contents@.contains_key(self.keys_in_order()[i]));
            }
        }
    }

    /// An empty store.
    pub fn new() -> (r: Self)
        ensures
            r.wf(),
            r@ == Map::<Seq<u8>, Seq<u8>>::empty(),
    {
        let r = SortedEntries { keys: Vec::new(), values: Vec::new(), contents: Ghost(Map::empty()) };
        assert(r.keys_in_order().len() == 0);
        r
    }

    /// The first position whose key is not below `key`.
    fn position(&self, key: &[u8]) -> (r: usize)
        requires
            self.wf(),
        ensures
            r <= self.keys@.len(),
            forall|j: int| 0 <= j < r ==> lex_lt(#[trigger] self.keys_in_order()[j], key@),
            r < self.keys@.len() ==> !lex_lt(self.keys_in_order()[r as int], key@),
    {
        let mut i: usize = 0;
        while i < self.keys.len() && lex_less(self.keys[i].as_slice(), key)
            invariant
                i <= self.keys@.len(),
                forall|j: int| 0 <= j < i ==> lex_lt(#[trigger] self.keys_in_order()[j], key@),
            decreases self.keys@.len() - i,
        {
            i = i + 1;
        }
        i
    }

    /// Where `r` is the first position whose key is not below `key`, the key
    /// stands nowhere but possibly at `r`.
    proof fn lemma_only_at(&self, key: Seq<u8>, r: int)
        requires
            self.wf(),
            0 <= r <= self.keys@.len(),
            forall|j: int| 0 <= j < r ==> lex_lt(#[trigger] self.keys_in_order()[j], key),
            r < self.keys@.len() ==> !lex_lt(self.keys_in_order()[r], key),
        ensures
            forall|j: int|
                0 <= j < self.keys@.len() && j != r ==> #[trigger] self.keys_in_order()[j] != key,
            r < self.keys@.len() && self.keys_in_order()[r] != key ==> forall|j: int|
                r <= j < self.keys@.len() ==> lex_lt(key, #[trigger] self.keys_in_order()[j]),
            !self@.contains_key(key) <==> (r == self.keys@.len() || self.keys_in_order()[r] != key),
    {
        let ks = self.keys_in_order();
        assert forall|j: int| 0 <= j < self.keys@.len() && j != r implies #[trigger] ks[j] != key by {
            if j < r {
                lemma_lex_irreflexive(key);
            } else {
                assert(lex_lt(ks[r], ks[j]));
                if ks[j] == key {
                    if ks[r] != key {
                        lemma_lex_total(ks[r], key);
                    } else {
                        lemma_lex_irreflexive(key);
                    }
                }
            }
        }
        if r < self.keys@.len() && ks[r] != key {
            lemma_lex_total(ks[r], key);
            assert forall|j: int| r <= j < self.keys@.len() implies lex_lt(key, #[trigger] ks[j]) by {
                if j > r {
                    lemma_lex_transitive(key, ks[r], ks[j]);
                }
            }
        }
        if self@.contains_key(key) {
            let i = choose|i: int| 0 <= i < self.keys@.len() && self.keys_in_order()[i] == key;
            assert(ks[i] == key);
        }
        if r < self.keys@.len() && ks[r] == key {
            assert(self.contents@.contains_key(ks[r]));
        }
    }

    /// Serves a read: the value of `key`, or the absent buffer.
    pub fn read(&self, key: &[u8]) -> (r: ReadReply)
        requires
            self.wf(),
        ensures
            r.status == STATUS_OK,
            r.used_gas == MEMORY_CALL_GAS,
            r.result@ == read_value(self@, key@),
    {
        let p = self.position(key);
        proof {
            self.lemma_only_at(key@, p as int);
        }
        if p < self.keys.len() && bytes_equal(self.keys[p].as_slice(), key) {
            let v = copy_bytes(self.values[p].as_slice());
            proof {
                assert(self.contents@.contains_key(self.keys_in_order()[p as int]));
                assert(self.value_seq()[p as int] == self.values@[p as int]@);
            }
            ReadReply { status: STATUS_OK, used_gas: MEMORY_CALL_GAS, result: UnmanagedVector::from_vec(v) }
        } else {
            ReadReply { status: STATUS_OK, used_gas: MEMORY_CALL_GAS, result: UnmanagedVector::none() }
        }
    }
    /// Serves a write: `key` now holds `value`.
    pub fn write(&mut self, key: &[u8], value: &[u8]) -> (r: CallReply)
        requires
            old(self).wf(),
        ensures
            final(self).wf(),
            final(self)@ == old(self)@.insert(key@, value@),
            r.status == STATUS_OK,
            r.used_gas == MEMORY_CALL_GAS,
    {
        let p = self.position(key);
        proof {
            self.lemma_only_at(key@, p as int);
        }
        let ghost old_keys = self.keys_in_order();
        let ghost old_values = self.value_seq();
        let ghost m = self.contents@;
        if p < self.keys.len() && bytes_equal(self.keys[p].as_slice(), key) {
            self.values.set(p, copy_bytes(value));
            self.contents = Ghost(m.insert(key@, value@));
            proof {
                assert(self.keys_in_order() =~= old_keys);
                assert(self.value_seq() =~= old_values.update(p as int, value@));
                assert forall|k: Seq<u8>| #[trigger] self.contents@.contains_key(k) implies exists|i: int|
                    0 <= i < self.keys@.len() && self.keys_in_order()[i] == k by {
                    if k == key@ {
                        assert(self.keys_in_order()[p as int] == k);
                    } else {
                        assert(m.contains_key(k));
                    }
                }
            }
        } else {
            self.keys.insert(p, copy_bytes(key));
            self.values.insert(p, copy_bytes(value));
            self.contents = Ghost(m.insert(key@, value@));
            proof {
                let ks = self.keys_in_order();
                assert(ks =~= old_keys.insert(p as int, key@));
                assert(self.value_seq() =~= old_values.insert(p as int, value@));
                assert forall|i: int, j: int| 0 <= i < j < ks.len() implies lex_lt(
                    #[trigger] ks[i],
                    #[trigger] ks[j],
                ) by {
                    if j < p {
                    } else if j == p {
                    } else if i < p {
                        assert(lex_lt(old_keys[i], key@));
                        assert(lex_lt(key@, old_keys[j - 1]));
                        lemma_lex_transitive(old_keys[i], key@, old_keys[j - 1]);
                    } else if i == p {
                        assert(lex_lt(key@, old_keys[j - 1]));
                    } else {
                        assert(lex_lt(old_keys[i - 1], old_keys[j - 1]));
                    }
                }
                assert forall|i: int| 0 <= i < self.keys@.len() implies {
                    &&& self.contents@.contains_key(#[trigger] self.keys_in_order()[i])
                    &&& self.contents@[self.keys_in_order()[i]] == self.value_seq()[i]
                } by {
                    if i < p {
                        assert(old_keys[i] != key@);
                        assert(m.contains_key(old_keys[i]));
                    } else if i > p {
                        assert(old_keys[i - 1] != key@);
                        assert(m.contains_key(old_keys[i - 1]));
                    }
                }
                assert forall|k: Seq<u8>| #[trigger] self.contents@.contains_key(k) implies exists|i: int|
                    0 <= i < self.keys@.len() && self.keys_in_order()[i] == k by {
                    if k == key@ {
                        assert(ks[p as int] == k);
                    } else {
                        assert(m.contains_key(k));
                        let i = choose|i: int| 0 <= i < old_keys.len() && old_keys[i] == k;
                        if i < p {
                            assert(ks[i] == k);
                        } else {
                            assert(ks[i + 1] == k);
                        }
                    }
                }
            }
        }
        CallReply { status: STATUS_OK, used_gas: MEMORY_CALL_GAS }
    }

    /// Serves a removal: `key` holds no value afterwards.
    pub fn delete(&mut self, key: &[u8]) -> (r: CallReply)
        requires
            old(self).wf(),
        ensures
            final(self).wf(),
            final(self)@ == old(self)@.remove(key@),
            r.status == STATUS_OK,
            r.used_gas == MEMORY_CALL_GAS,
    {
        let p = self.position(key);
        proof {
            self.lemma_only_at(key@, p as int);
        }
        let ghost old_keys = self.keys_in_order();
        let ghost old_values = self.value_seq();
        let ghost m = self.contents@;
        if p < self.keys.len() && bytes_equal(self.keys[p].as_slice(), key) {
            self.keys.remove(p);
            self.values.remove(p);
            self.contents = Ghost(m.remove(key@));
            proof {
                let ks = self.keys_in_order();
                assert(ks =~= old_keys.remove(p as int));
                assert(self.value_seq() =~= old_values.remove(p as int));
                assert forall|i: int, j: int| 0 <= i < j < ks.len() implies lex_lt(
                    #[trigger] ks[i],
                    #[trigger] ks[j],
                ) by {
                    if j < p {
                    } else if i < p {
                        assert(lex_lt(old_keys[i], old_keys[j + 1]));
                    } else {
                        assert(lex_lt(old_keys[i + 1], old_keys[j + 1]));
                    }
                }
                assert forall|i: int| 0 <= i < self.keys@.len() implies {
                    &&& self.contents@.contains_key(#[trigger] self.keys_in_order()[i])
                    &&& self.contents@[self.keys_in_order()[i]] == self.value_seq()[i]
                } by {
                    if i < p {
                        assert(old_keys[i] != key@);
                        assert(m.contains_key(old_keys[i]));
                    } else {
                        assert(old_keys[i + 1] != key@);
                        assert(m.contains_key(old_keys[i + 1]));
                    }
                }
                assert forall|k: Seq<u8>| #[trigger] self.contents@.contains_key(k) implies exists|i: int|
                    0 <= i < self.keys@.len() && self.keys_in_order()[i] == k by {
                    assert(m.contains_key(k));
                    let i = choose|i: int| 0 <= i < old_keys.len() && old_keys[i] == k;
                    assert(i != p);
                    if i < p {
                        assert(ks[i] == k);
                    } else {
                        assert(ks[i - 1] == k);
                    }
                }
            }
        } else {
            proof {
                assert(m.remove(key@) =~= m);
            }
        }
        CallReply { status: STATUS_OK, used_gas: MEMORY_CALL_GAS }
    }
    /// A cursor over the keys in the range, in the given direction.
    pub fn scan(&self, start: Option<&[u8]>, end: Option<&[u8]>, descending: bool) -> (r:
        MemoryCursor)
        requires
            self.wf(),
        ensures
            r.wf(),
            r.remaining_keys() == in_order(
                select_keys(self.keys_in_order(), opt_bytes(start), opt_bytes(end)),
                descending,
            ),
            r.remaining_values().len() == r.remaining_keys().len(),
            forall|j: int|
                0 <= j < r.remaining_keys().len() ==> {
                    &&& self@.contains_key(#[trigger] r.remaining_keys()[j])
                    &&& self@[r.remaining_keys()[j]] == r.remaining_values()[j]
                },
    {
        let ghost ks = self.keys_in_order();
        let ghost s = opt_bytes(start);
        let ghost e = opt_bytes(end);
        let mut keys: Vec<Vec<u8>> = Vec::new();
        let mut values: Vec<Vec<u8>> = Vec::new();
        let mut i: usize = 0;
        while i < self.keys.len()
            invariant
                self.wf(),
                ks == self.keys_in_order(),
                s == opt_bytes(start),
                e == opt_bytes(end),
                i <= self.keys@.len(),
                keys@.len() == values@.len(),
                byte_views(keys@) == select_keys(ks.subrange(0, i as int), s, e),
                forall|j: int|
                    0 <= j < keys@.len() ==> {
                        &&& self@.contains_key(#[trigger] keys@[j]@)
                        &&& self@[keys@[j]@] == values@[j]@
                    },
            decreases self.keys@.len() - i,
        {
            let ghost prefix = ks.subrange(0, i as int + 1);
            assert(prefix.drop_last() =~= ks.subrange(0, i as int));
            assert(prefix.last() == ks[i as int]);
            assert(ks[i as int] == self.keys@[i as int]@);
            assert(prefix.len() > 0);
            assert(select_keys(prefix, s, e) == if key_in_range(ks[i as int], s, e) {
                select_keys(ks.subrange(0, i as int), s, e).push(ks[i as int])
            } else {
                select_keys(ks.subrange(0, i as int), s, e)
            });
            let current = self.keys[i].as_slice();
            if key_in_range_exec(current, start, end) {
                let ghost before = byte_views(keys@);
                keys.push(copy_bytes(self.keys[i].as_slice()));
                values.push(copy_bytes(self.values[i].as_slice()));
                assert(byte_views(keys@) =~= before.push(ks[i as int]));
                assert(self.contents@.contains_key(ks[i as int]));
                assert(self.value_seq()[i as int] == self.values@[i as int]@);
            }
            i = i + 1;
        }
        assert(ks.subrange(0, self.keys@.len() as int) =~= ks);
        let r = MemoryCursor { keys, values, descending, pos: 0 };
        proof {
            let ck = r.key_seq();
            let cv = r.value_seq();
            assert(in_order(ck, descending).skip(0) =~= in_order(ck, descending));
            assert(in_order(cv, descending).skip(0) =~= in_order(cv, descending));
            assert forall|j: int| 0 <= j < r.remaining_keys().len() implies {
                &&& self@.contains_key(#[trigger] r.remaining_keys()[j])
                &&& self@[r.remaining_keys()[j]] == r.remaining_values()[j]
            } by {
                if descending {
                    let n = ck.len();
                    assert(r.remaining_keys()[j] == ck[n - 1 - j]);
                    assert(r.remaining_values()[j] == cv[n - 1 - j]);
                    assert(ck[n - 1 - j] == r.keys@[n - 1 - j]@);
                } else {
                    assert(ck[j] == r.keys@[j]@);
                }
            }
        }
        r
    }
}

impl MemoryCursor {
    pub closed spec fn key_seq(&self) -> Seq<Seq<u8>> {
        byte_views(self.keys@)
    }

    pub closed spec fn value_seq(&self) -> Seq<Seq<u8>> {
        byte_views(self.values@)
    }

    pub closed spec fn wf(&self) -> bool {
        &&& self.keys@.len() == self.values@.len()
        &&& self.pos <= self.keys@.len()
    }

    /// The keys that the cursor has yet to hand out, in order.
    pub closed spec fn remaining_keys(&self) -> Seq<Seq<u8>> {
        in_order(self.key_seq(), self.descending).skip(self.pos as int)
    }

    /// The values that go with `remaining_keys`.
    pub closed spec fn remaining_values(&self) -> Seq<Seq<u8>> {
        in_order(self.value_seq(), self.descending).skip(self.pos as int)
    }

    /// Hands out the next pair, or the absent key once every pair has gone.
    /// Once exhausted, the cursor stays exhausted.
    pub fn step(&mut self) -> (r: NextReply)
        ensures
            old(self).wf() ==> {
                &&& final(self).wf()
                &&& r.status == STATUS_OK
                &&& r.used_gas == MEMORY_CALL_GAS
                &&& r.error_msg@.is_none()
                &&& old(self).remaining_keys().len() == 0 ==> {
                    &&& r.key@.is_none()
                    &&& r.value@.is_none()
                    &&& final(self).remaining_keys().len() == 0
                }
                &&& old(self).remaining_keys().len() > 0 ==> {
                    &&& r.key@ == Some(old(self).remaining_keys()[0])
                    &&& r.value@ == Some(old(self).remaining_values()[0])
                    &&& final(self).remaining_keys() == old(self).remaining_keys().drop_first()
                    &&& final(self).remaining_values() == old(self).remaining_values().drop_first()
                }
            },
    {
        if self.pos < self.keys.len() && self.keys.len() == self.values.len() {
            let n = self.keys.len();
            let idx = if self.descending {
                n - 1 - self.pos
            } else {
                self.pos
            };
            let k = copy_bytes(self.keys[idx].as_slice());
            let v = copy_bytes(self.values[idx].as_slice());
            let ghost ok = in_order(self.key_seq(), self.descending);
            let ghost ov = in_order(self.value_seq(), self.descending);
            let ghost p = self.pos as int;
            proof {
                assert(ok[p] == self.keys@[idx as int]@);
                assert(ov[p] == self.values@[idx as int]@);
            }
            self.pos = self.pos + 1;
            proof {
                assert(ok.skip(p + 1) =~= ok.skip(p).drop_first());
                assert(ov.skip(p + 1) =~= ov.skip(p).drop_first());
            }
            NextReply {
                status: STATUS_OK,
                used_gas: MEMORY_CALL_GAS,
                key: UnmanagedVector::from_vec(k),
                value: UnmanagedVector::from_vec(v),
                error_msg: UnmanagedVector::none(),
            }
        } else {
            NextReply {
                status: STATUS_OK,
                used_gas: MEMORY_CALL_GAS,
                key: UnmanagedVector::none(),
                value: UnmanagedVector::none(),
                error_msg: UnmanagedVector::none(),
            }
        }
    }
}

/// An in-memory store that serves the calls of the other side: a stand-in
/// for the host's storage engine.
pub struct MemoryDb {
    entries: SortedEntries,
}

impl View for MemoryDb {
    type V = Map<Seq<u8>, Seq<u8>>;

    closed spec fn view(&self) -> Map<Seq<u8>, Seq<u8>> {
        self.entries@
    }
}

/// Whether a scan with this order code runs backwards.
pub open spec fn descending_code(order: i32) -> bool {
    order_of_code(order) == Some(Order::Descending)
}

impl MemoryDb {
    #[verifier::type_invariant]
    spec fn inv(self) -> bool {
        self.entries.wf()
    }

    /// The stored keys in increasing order.
    pub closed spec fn keys_in_order(&self) -> Seq<Seq<u8>> {
        self.entries.keys_in_order()
    }

    pub fn new() -> (r: Self)
        ensures
            r@ == Map::<Seq<u8>, Seq<u8>>::empty(),
    {
        MemoryDb { entries: SortedEntries::new() }
    }

    /// Serves a read: the value of `key`, or the absent buffer.
    pub fn read(&self, key: &[u8]) -> (r: ReadReply)
        ensures
            r.status == STATUS_OK,
            r.used_gas == MEMORY_CALL_GAS,
            r.result@ == read_value(self@, key@),
    {
        proof {
            use_type_invariant(self);
        }
        self.entries.read(key)
    }

    /// Serves a write: `key` now holds `value`.
    pub fn write(&mut self, key: &[u8], value: &[u8]) -> (r: CallReply)
        ensures
            final(self)@ == old(self)@.insert(key@, value@),
            r.status == STATUS_OK,
            r.used_gas == MEMORY_CALL_GAS,
    {
        proof {
            use_type_invariant(&*self);
        }
        let mut e = SortedEntries::new();
        std::mem::swap(&mut e, &mut self.entries);
        let r = e.write(key, value);
        self.entries = e;
        r
    }

    /// Serves a removal: `key` holds no value afterwards.
    pub fn delete(&mut self, key: &[u8]) -> (r: CallReply)
        ensures
            final(self)@ == old(self)@.remove(key@),
            r.status == STATUS_OK,
            r.used_gas == MEMORY_CALL_GAS,
    {
        proof {
            use_type_invariant(&*self);
        }
        let mut e = SortedEntries::new();
        std::mem::swap(&mut e, &mut self.entries);
        let r = e.delete(key);
        self.entries = e;
        r
    }

    /// Serves a scan: a cursor over the keys from `start` (inclusive) to `end`
    /// (exclusive), or a bad-argument status for an unknown order code.
    pub fn scan(&self, start: Option<&[u8]>, end: Option<&[u8]>, order: i32) -> (r: ScanReply<
        MemoryCursor,
    >)
        ensures
            strictly_increasing(self.keys_in_order()),
            forall|k: Seq<u8>| self@.contains_key(k) <==> self.keys_in_order().contains(k),
            r.used_gas == MEMORY_CALL_GAS,
            order_of_code(order).is_none() ==> r.status == STATUS_BAD_ARGUMENT
                && r.next_db.is_none(),
            order_of_code(order).is_some() ==> {
                &&& r.status == STATUS_OK
                &&& r.next_db matches Some(c) && {
                    &&& c.wf()
                    &&& c.remaining_keys() == in_order(
                        select_keys(self.keys_in_order(), opt_bytes(start), opt_bytes(end)),
                        descending_code(order),
                    )
                    &&& c.remaining_values().len() == c.remaining_keys().len()
                    &&& forall|j: int|
                        0 <= j < c.remaining_keys().len() ==> {
                            &&& self@.contains_key(#[trigger] c.remaining_keys()[j])
                            &&& self@[c.remaining_keys()[j]] == c.remaining_values()[j]
                        }
                }
            },
    {
        proof {
            use_type_invariant(self);
            self.entries.lemma_keys();
        }
        let state = iterator_t { db_counter: 0, iterator_index: 0 };
        match Order::from_code(order) {
            None => ScanReply {
                status: STATUS_BAD_ARGUMENT,
                used_gas: MEMORY_CALL_GAS,
                iterator: state,
                next_db: None,
            },
            Some(_) => {
                let descending = order == ORDER_DESCENDING;
                let c = self.entries.scan(start, end, descending);
                ScanReply { status: STATUS_OK, used_gas: MEMORY_CALL_GAS, iterator: state, next_db: Some(c) }
            },
        }
    }
}

impl NextDb for MemoryCursor {
    fn next_db(&mut self, _state: iterator_t, _gas_meter: gas_meter_t) -> NextReply {
        self.step()
    }
}

impl DbHost for MemoryDb {
    type Next = MemoryCursor;

    fn read_db(&self, _state: db_t, _gas_meter: gas_meter_t, key: &UnmanagedVector) -> ReadReply {
        match key.as_slice() {
            Some(k) => self.read(k),
            None => ReadReply {
                status: STATUS_BAD_ARGUMENT,
                used_gas: MEMORY_CALL_GAS,
                result: UnmanagedVector::none(),
            },
        }
    }

    fn write_db(
        &mut self,
        _state: db_t,
        _gas_meter: gas_meter_t,
        key: &UnmanagedVector,
        value: &UnmanagedVector,
    ) -> CallReply {
        match (key.as_slice(), value.as_slice()) {
            (Some(k), Some(v)) => self.write(k, v),
            _ => CallReply { status: STATUS_BAD_ARGUMENT, used_gas: MEMORY_CALL_GAS },
        }
    }

    fn remove_db(&mut self, _state: db_t, _gas_meter: gas_meter_t, key: &UnmanagedVector) -> CallReply {
        match key.as_slice() {
            Some(k) => self.delete(k),
            None => CallReply { status: STATUS_BAD_ARGUMENT, used_gas: MEMORY_CALL_GAS },
        }
    }

    fn scan_db(
        &mut self,
        _state: db_t,
        _gas_meter: gas_meter_t,
        start: &UnmanagedVector,
        end: &UnmanagedVector,
        order: i32,
    ) -> ScanReply<MemoryCursor> {
        self.scan(start.as_slice(), end.as_slice(), order)
    }
}

} // verus!
