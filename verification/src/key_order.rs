//! The order in which the storage walks the holders of an AGV: by the key
//! under which each holder is stored, the Blake2-128 hash of the holder's
//! SCALE encoding followed by that encoding (`Blake2_128Concat`), compared
//! byte by byte.
use vstd::prelude::*;

use crate::distribution::share_sum;
use crate::types::AccountId;

verus! {

/// What `sp_crypto_hashing::blake2_128` returns for `data`.
pub uninterp spec fn blake2_128_spec(data: Seq<u8>) -> Seq<u8>;

/// Calls `sp_crypto_hashing::blake2_128`, the Blake2b hash of `data` with a
/// 16-byte output. Claimed: the result is `blake2_128_spec(data)`, a
/// function of the bytes alone (the length 16 comes from the array type).
#[verifier::external_body]
fn blake2_128(data: &[u8]) -> (r: [u8; 16])
    ensures
        r@ == blake2_128_spec(data@),
{
    sp_crypto_hashing::blake2_128(data)
}

/// The SCALE encoding of a `u64`: its 8 bytes, least significant first.
pub open spec fn le_bytes(x: u64) -> Seq<u8> {
    Seq::new(8, |i: int| ((x >> ((8 * i) as u64)) & 0xff) as u8)
}

/// The key suffix under which a holder is stored (`Blake2_128Concat`).
pub open spec fn storage_key(holder: AccountId) -> Seq<u8> {
    blake2_128_spec(le_bytes(holder)) + le_bytes(holder)
}

/// `a` comes before `b` byte by byte (a proper prefix comes first).
pub open spec fn bytes_lt(a: Seq<u8>, b: Seq<u8>) -> bool
    decreases a.len(),
{
    if b.len() == 0 {
        false
    } else if a.len() == 0 {
        true
    } else if a[0] != b[0] {
        a[0] < b[0]
    } else {
        bytes_lt(a.drop_first(), b.drop_first())
    }
}

/// A holder with its shares, and the key it is ordered by.
pub type Keyed = (Seq<u8>, (AccountId, u32));

/// `x` placed into `sorted` before the first entry whose key comes after its own.
pub open spec fn insert_keyed(sorted: Seq<Keyed>, x: Keyed) -> Seq<Keyed>
    decreases sorted.len(),
{
    if sorted.len() == 0 {
        seq![x]
    } else if bytes_lt(x.0, sorted[0].0) {
        seq![x] + sorted
    } else {
        seq![sorted[0]] + insert_keyed(sorted.drop_first(), x)
    }
}

/// The entries of `s` in the order of their keys (entries with equal keys
/// keep their order).
pub open spec fn sort_keyed(s: Seq<Keyed>) -> Seq<Keyed>
    decreases s.len(),
{
    if s.len() == 0 {
        Seq::empty()
    } else {
        insert_keyed(sort_keyed(s.drop_last()), s.last())
    }
}

/// The holders of keyed entries.
pub open spec fn values(s: Seq<Keyed>) -> Seq<(AccountId, u32)> {
    s.map_values(|p: Keyed| p.1)
}

/// Each holder of `h` with its storage key.
pub open spec fn with_storage_keys(h: Seq<(AccountId, u32)>) -> Seq<Keyed> {
    h.map_values(|e: (AccountId, u32)| (storage_key(e.0), e))
}

/// The holders `h` in the order of their storage keys.
pub open spec fn storage_order(h: Seq<(AccountId, u32)>) -> Seq<(AccountId, u32)> {
    values(sort_keyed(with_storage_keys(h)))
}

/// The keyed entries held in a vector, keys taken by their bytes.
pub open spec fn keyed_view(v: Seq<(Vec<u8>, (AccountId, u32))>) -> Seq<Keyed> {
    v.map_values(|e: (Vec<u8>, (AccountId, u32))| (e.0@, e.1))
}

/// The encoding of `x`.
fn encode_u64(x: u64) -> (r: Vec<u8>)
    ensures
        r@ == le_bytes(x),
{
    let mut out: Vec<u8> = Vec::new();
    let mut i: u64 = 0;
    while i < 8
        invariant
            i <= 8,
            out@.len() == i,
            forall|j: int| 0 <= j < i ==> #[trigger] out@[j] == ((x >> ((8 * j) as u64)) & 0xff) as u8,
        decreases 8 - i,
    {
        out.push(((x >> (8 * i)) & 0xff) as u8);
        i = i + 1;
    }
    assert(out@ =~= le_bytes(x));
    out
}

/// The key suffix under which `holder` is stored.
fn holder_key(holder: AccountId) -> (r: Vec<u8>)
    ensures
        r@ == storage_key(holder),
{
    let encoded = encode_u64(holder);
    let hash = blake2_128(encoded.as_slice());
    let mut out: Vec<u8> = Vec::new();
    let mut i: usize = 0;
    while i < 16
        invariant
            i <= 16,
            hash@.len() == 16,
            out@ == hash@.take(i as int),
        decreases 16 - i,
    {
        out.push(hash[i]);
        assert(hash@.take(i + 1) =~= hash@.take(i as int).push(hash@[i as int]));
        i = i + 1;
    }
    let mut j: usize = 0;
    while j < 8
        invariant
            j <= 8,
            hash@.len() == 16,
            encoded@.len() == 8,
            out@ == hash@ + encoded@.take(j as int),
        decreases 8 - j,
    {
        out.push(encoded[j]);
        assert(encoded@.take(j + 1) =~= encoded@.take(j as int).push(encoded@[j as int]));
        j = j + 1;
    }
    assert(hash@.take(16) =~= hash@);
    assert(encoded@.take(8) =~= encoded@);
    out
}

/// Whether `a` comes before `b` byte by byte.
fn less_than(a: &Vec<u8>, b: &Vec<u8>) -> (r: bool)
    ensures
        r == bytes_lt(a@, b@),
{
    let mut i: usize = 0;
    assert(a@.skip(0) =~= a@);
    assert(b@.skip(0) =~= b@);
    while i < a.len() && i < b.len()
        invariant
            i <= a@.len(),
            i <= b@.len(),
            bytes_lt(a@, b@) == bytes_lt(a@.skip(i as int), b@.skip(i as int)),
        decreases a@.len() - i,
    {
        if a[i] != b[i] {
            return a[i] < b[i];
        }
        assert(a@.skip(i as int).drop_first() =~= a@.skip(i + 1));
        assert(b@.skip(i as int).drop_first() =~= b@.skip(i + 1));
        i = i + 1;
    }
    i < b.len()
}

/// Inserting at the first position whose key comes after `x`'s.
proof fn lemma_insert_at(s: Seq<Keyed>, x: Keyed, j: int)
    requires
        0 <= j <= s.len(),
        forall|i: int| 0 <= i < j ==> !bytes_lt(x.0, #[trigger] s[i].0),
        j < s.len() ==> bytes_lt(x.0, s[j].0),
    ensures
        insert_keyed(s, x) == s.insert(j, x),
    decreases s.len(),
{
    if s.len() == 0 {
        assert(s.insert(j, x) =~= seq![x]);
    } else if j == 0 {
        assert(s.insert(0, x) =~= seq![x] + s);
    } else {
        let t = s.drop_first();
        assert forall|i: int| 0 <= i < j - 1 implies !bytes_lt(x.0, #[trigger] t[i].0) by {
            assert(t[i] == s[i + 1]);
        }
        if j - 1 < t.len() {
            assert(t[j - 1] == s[j]);
        }
        assert(!bytes_lt(x.0, s[0].0));
        lemma_insert_at(t, x, j - 1);
        assert(s.insert(j, x) =~= seq![s[0]] + t.insert(j - 1, x));
    }
}

/// A holder placed in front adds its shares.
proof fn lemma_share_sum_prepend(a: (AccountId, u32), s: Seq<(AccountId, u32)>)
    ensures
        share_sum(seq![a] + s) == a.1 + share_sum(s),
    decreases s.len(),
{
    let t = seq![a] + s;
    if s.len() == 0 {
        assert(t.drop_last() =~= Seq::<(AccountId, u32)>::empty());
        assert(t.last() == a);
        assert(share_sum(t.drop_last()) == 0);
        assert(share_sum(s) == 0);
    } else {
        assert(t.drop_last() =~= seq![a] + s.drop_last());
        assert(t.last() == s.last());
        lemma_share_sum_prepend(a, s.drop_last());
    }
}

/// Inserting an entry adds one entry, its holder and its shares; every entry
/// of the result is `x` or an entry of `s`.
proof fn lemma_insert_keyed(s: Seq<Keyed>, x: Keyed)
    ensures
        insert_keyed(s, x).len() == s.len() + 1,
        share_sum(values(insert_keyed(s, x))) == share_sum(values(s)) + x.1.1,
        forall|y: Keyed| #[trigger] insert_keyed(s, x).contains(y) ==> y == x || s.contains(y),
    decreases s.len(),
{
    let t = insert_keyed(s, x);
    if s.len() == 0 || bytes_lt(x.0, s[0].0) {
        assert(values(t) =~= seq![x.1] + values(s));
        lemma_share_sum_prepend(x.1, values(s));
        assert forall|y: Keyed| #[trigger] t.contains(y) implies y == x || s.contains(y) by {
            let k = choose|k: int| 0 <= k < t.len() && t[k] == y;
            if k > 0 {
                assert(s[k - 1] == y);
            }
        }
    } else {
        let r = s.drop_first();
        let u = insert_keyed(r, x);
        lemma_insert_keyed(r, x);
        assert(values(t) =~= seq![s[0].1] + values(u));
        assert(values(s) =~= seq![s[0].1] + values(r));
        lemma_share_sum_prepend(s[0].1, values(u));
        lemma_share_sum_prepend(s[0].1, values(r));
        assert forall|y: Keyed| #[trigger] t.contains(y) implies y == x || s.contains(y) by {
            let k = choose|k: int| 0 <= k < t.len() && t[k] == y;
            if k == 0 {
                assert(s[0] == y);
            } else {
                assert(u[k - 1] == y);
                assert(u.contains(y));
                if y != x {
                    let m = choose|m: int| 0 <= m < r.len() && r[m] == y;
                    assert(s[m + 1] == y);
                }
            }
        }
    }
}

/// Sorting keeps the number of entries, their holders' shares, and the entries themselves.
proof fn lemma_sort_keyed(s: Seq<Keyed>)
    ensures
        sort_keyed(s).len() == s.len(),
        share_sum(values(sort_keyed(s))) == share_sum(values(s)),
        forall|y: Keyed| #[trigger] sort_keyed(s).contains(y) ==> s.contains(y),
    decreases s.len(),
{
    if s.len() > 0 {
        let p = s.drop_last();
        lemma_sort_keyed(p);
        lemma_insert_keyed(sort_keyed(p), s.last());
        assert(values(s) =~= values(p).push(s.last().1));
        assert(values(s).drop_last() =~= values(p));
        assert forall|y: Keyed| #[trigger] sort_keyed(s).contains(y) implies s.contains(y) by {
            if y == s.last() {
                assert(s[s.len() - 1] == y);
            } else {
                assert(sort_keyed(p).contains(y));
                let k = choose|k: int| 0 <= k < p.len() && p[k] == y;
                assert(s[k] == y);
            }
        }
    } else {
        assert(values(s) =~= Seq::<(AccountId, u32)>::empty());
        assert(values(sort_keyed(s)) =~= Seq::<(AccountId, u32)>::empty());
    }
}

/// Ordering the holders keeps their number and the total of their shares.
pub proof fn lemma_storage_order(h: Seq<(AccountId, u32)>)
    ensures
        storage_order(h).len() == h.len(),
        share_sum(storage_order(h)) == share_sum(h),
{
    lemma_sort_keyed(with_storage_keys(h));
    assert(values(with_storage_keys(h)) =~= h);
}

/// Putting an element in front adds it to the multiset of the sequence.
proof fn lemma_prepend_to_multiset<A>(a: A, s: Seq<A>)
    ensures
        (seq![a] + s).to_multiset() =~= s.to_multiset().insert(a),
{
    broadcast use vstd::seq_lib::group_to_multiset_ensures;
    broadcast use vstd::multiset::group_multiset_axioms;

    let t = seq![a] + s;
    assert(t.remove(0) =~= s);
    assert(t[0] == a);
    assert(t.contains(a));
    assert(t.to_multiset().count(a) > 0);
    assert(s.to_multiset() =~= t.to_multiset().remove(a));
}

/// Inserting an entry adds its holder to the holders, as a multiset.
proof fn lemma_insert_keyed_to_multiset(s: Seq<Keyed>, x: Keyed)
    ensures
        values(insert_keyed(s, x)).to_multiset() =~= values(s).to_multiset().insert(x.1),
    decreases s.len(),
{
    broadcast use vstd::multiset::group_multiset_axioms;

    if s.len() == 0 || bytes_lt(x.0, s[0].0) {
        assert(values(insert_keyed(s, x)) =~= seq![x.1] + values(s));
        lemma_prepend_to_multiset(x.1, values(s));
    } else {
        let r = s.drop_first();
        lemma_insert_keyed_to_multiset(r, x);
        assert(values(insert_keyed(s, x)) =~= seq![s[0].1] + values(insert_keyed(r, x)));
        assert(values(s) =~= seq![s[0].1] + values(r));
        lemma_prepend_to_multiset(s[0].1, values(insert_keyed(r, x)));
        lemma_prepend_to_multiset(s[0].1, values(r));
    }
}

/// Sorting keeps the holders, as a multiset.
proof fn lemma_sort_keyed_to_multiset(s: Seq<Keyed>)
    ensures
        values(sort_keyed(s)).to_multiset() =~= values(s).to_multiset(),
    decreases s.len(),
{
    broadcast use vstd::seq_lib::group_to_multiset_ensures;

    if s.len() == 0 {
        assert(values(sort_keyed(s)) =~= values(s));
    } else {
        let p = s.drop_last();
        lemma_sort_keyed_to_multiset(p);
        lemma_insert_keyed_to_multiset(sort_keyed(p), s.last());
        assert(values(s) =~= values(p).push(s.last().1));
    }
}

/// The storage walk visits each holder of `h` exactly as often as `h` holds
/// it: the walk is a permutation of the holders.
pub proof fn storage_order_is_permutation(h: Seq<(AccountId, u32)>)
    ensures
        storage_order(h).to_multiset() =~= h.to_multiset(),
{
    lemma_sort_keyed_to_multiset(with_storage_keys(h));
    assert(values(with_storage_keys(h)) =~= h);
}

/// No entry's key comes before that of an entry earlier in `s`.
pub open spec fn sorted_keyed(s: Seq<Keyed>) -> bool {
    forall|i: int, j: int| 0 <= i < j < s.len() ==> !bytes_lt(#[trigger] s[j].0, #[trigger] s[i].0)
}

/// No holder's storage key comes before that of a holder earlier in `s`.
pub open spec fn sorted_by_storage_key(s: Seq<(AccountId, u32)>) -> bool {
    forall|i: int, j: int|
        0 <= i < j < s.len() ==> !bytes_lt(storage_key(#[trigger] s[j].0), storage_key(#[trigger] s[i].0))
}

/// Byte-by-byte order is transitive.
pub proof fn lemma_bytes_lt_transitive(a: Seq<u8>, b: Seq<u8>, c: Seq<u8>)
    requires
        bytes_lt(a, b),
        bytes_lt(b, c),
    ensures
        bytes_lt(a, c),
    decreases a.len(),
{
    if a.len() > 0 && b.len() > 0 && c.len() > 0 && a[0] == b[0] && b[0] == c[0] {
        lemma_bytes_lt_transitive(a.drop_first(), b.drop_first(), c.drop_first());
    }
}

/// No byte sequence comes before itself.
pub proof fn lemma_bytes_lt_irreflexive(a: Seq<u8>)
    ensures
        !bytes_lt(a, a),
    decreases a.len(),
{
    if a.len() > 0 {
        lemma_bytes_lt_irreflexive(a.drop_first());
    }
}

/// Inserting by key into a sorted sequence keeps it sorted.
proof fn lemma_insert_sorted(s: Seq<Keyed>, x: Keyed)
    requires
        sorted_keyed(s),
    ensures
        sorted_keyed(insert_keyed(s, x)),
    decreases s.len(),
{
    let t = insert_keyed(s, x);
    if s.len() == 0 {
    } else if bytes_lt(x.0, s[0].0) {
        assert forall|i: int, j: int| 0 <= i < j < t.len() implies !bytes_lt(
            #[trigger] t[j].0,
            #[trigger] t[i].0,
        ) by {
            if i == 0 {
                assert(t[j] == s[j - 1]);
                if j - 1 > 0 {
                    assert(!bytes_lt(s[j - 1].0, s[0].0));
                }
                if bytes_lt(s[j - 1].0, x.0) {
                    lemma_bytes_lt_transitive(s[j - 1].0, x.0, s[0].0);
                    lemma_bytes_lt_irreflexive(s[0].0);
                }
            } else {
                assert(t[i] == s[i - 1] && t[j] == s[j - 1]);
                assert(!bytes_lt(s[j - 1].0, s[i - 1].0));
            }
        }
    } else {
        let r = s.drop_first();
        assert(sorted_keyed(r)) by {
            assert forall|i: int, j: int| 0 <= i < j < r.len() implies !bytes_lt(
                #[trigger] r[j].0,
                #[trigger] r[i].0,
            ) by {
                assert(r[i] == s[i + 1] && r[j] == s[j + 1]);
            }
        }
        lemma_insert_sorted(r, x);
        lemma_insert_keyed(r, x);
        let u = insert_keyed(r, x);
        assert(t == seq![s[0]] + u);
        assert forall|i: int, j: int| 0 <= i < j < t.len() implies !bytes_lt(
            #[trigger] t[j].0,
            #[trigger] t[i].0,
        ) by {
            if i == 0 {
                assert(t[0] == s[0]);
                assert(t[j] == u[j - 1]);
                assert(u.contains(u[j - 1]));
                if u[j - 1] != x {
                    let k = choose|k: int| 0 <= k < r.len() && r[k] == u[j - 1];
                    assert(r[k] == s[k + 1]);
                    assert(!bytes_lt(s[k + 1].0, s[0].0));
                }
            } else {
                assert(t[i] == u[i - 1] && t[j] == u[j - 1]);
                assert(!bytes_lt(u[j - 1].0, u[i - 1].0));
            }
        }
    }
}

/// Sorting by key gives a sorted sequence.
proof fn lemma_sort_sorted(s: Seq<Keyed>)
    ensures
        sorted_keyed(sort_keyed(s)),
    decreases s.len(),
{
    if s.len() > 0 {
        lemma_sort_sorted(s.drop_last());
        lemma_insert_sorted(sort_keyed(s.drop_last()), s.last());
    }
}

/// The storage walk visits the holders in the order of their storage keys.
pub proof fn storage_order_is_sorted(h: Seq<(AccountId, u32)>)
    ensures
        sorted_by_storage_key(storage_order(h)),
{
    let k = with_storage_keys(h);
    let t = sort_keyed(k);
    lemma_sort_sorted(k);
    lemma_sort_keyed(k);
    assert forall|i: int| 0 <= i < t.len() implies #[trigger] t[i].0 == storage_key(t[i].1.0) by {
        assert(t.contains(t[i]));
        let m = choose|m: int| 0 <= m < k.len() && k[m] == t[i];
    }
    let o = storage_order(h);
    assert forall|i: int, j: int| 0 <= i < j < o.len() implies !bytes_lt(
        storage_key(#[trigger] o[j].0),
        storage_key(#[trigger] o[i].0),
    ) by {
        assert(o[i] == t[i].1 && o[j] == t[j].1);
        assert(!bytes_lt(t[j].0, t[i].0));
    }
}

/// The holders with their keys (given in `items`) in the order of the keys,
/// compared byte by byte; holders with equal keys keep their order.
pub fn sort_by_key_bytes(items: &Vec<(Vec<u8>, (AccountId, u32))>) -> (r: Vec<(AccountId, u32)>)
    ensures
        r@ == values(sort_keyed(keyed_view(items@))),
{
    let ghost kv = keyed_view(items@);
    let mut order: Vec<usize> = Vec::new();
    let mut out: Vec<(AccountId, u32)> = Vec::new();
    let ghost mut sorted: Seq<Keyed> = Seq::empty();
    let mut n: usize = 0;
    assert(kv.take(0) =~= Seq::<Keyed>::empty());
    while n < items.len()
        invariant
            kv == keyed_view(items@),
            n <= items@.len(),
            sorted == sort_keyed(kv.take(n as int)),
            out@ == values(sorted),
            order@.len() == sorted.len(),
            forall|i: int|
                0 <= i < order@.len() ==> (#[trigger] order@[i] as int) < items@.len() && items@[order@[i] as int].0@
                    == sorted[i].0,
        decreases items@.len() - n,
    {
        let mut j: usize = 0;
        while j < order.len() && !less_than(&items[n].0, &items[order[j]].0)
            invariant
                kv == keyed_view(items@),
                n < items@.len(),
                j <= order@.len(),
                order@.len() == sorted.len(),
                forall|i: int|
                    0 <= i < order@.len() ==> (#[trigger] order@[i] as int) < items@.len()
                        && items@[order@[i] as int].0@ == sorted[i].0,
                forall|i: int| 0 <= i < j ==> !bytes_lt(kv[n as int].0, #[trigger] sorted[i].0),
            decreases order@.len() - j,
        {
            j = j + 1;
        }
        let ghost x = kv[n as int];
        proof {
            assert(x == (items@[n as int].0@, items@[n as int].1));
            lemma_insert_at(sorted, x, j as int);
            assert(kv.take(n + 1).drop_last() =~= kv.take(n as int));
            assert(kv.take(n + 1).last() == x);
        }
        let ghost old_order = order@;
        let ghost old_sorted = sorted;
        order.insert(j, n);
        out.insert(j, items[n].1);
        proof {
            sorted = sorted.insert(j as int, x);
            assert(out@ =~= values(sorted));
            assert forall|i: int| 0 <= i < order@.len() implies (#[trigger] order@[i] as int) < items@.len()
                && items@[order@[i] as int].0@ == sorted[i].0 by {
                if i < j {
                    assert(order@[i] == old_order[i] && sorted[i] == old_sorted[i]);
                } else if i > j {
                    assert(order@[i] == old_order[i - 1] && sorted[i] == old_sorted[i - 1]);
                }
            }
        }
        n = n + 1;
    }
    assert(kv.take(items@.len() as int) =~= kv);
    out
}

/// The holders `h` in the order of their storage keys.
pub fn order_by_storage_key(h: &Vec<(AccountId, u32)>) -> (r: Vec<(AccountId, u32)>)
    ensures
        r@ == storage_order(h@),
{
    let mut items: Vec<(Vec<u8>, (AccountId, u32))> = Vec::new();
    let mut i: usize = 0;
    while i < h.len()
        invariant
            i <= h@.len(),
            keyed_view(items@) == with_storage_keys(h@).take(i as int),
        decreases h@.len() - i,
    {
        let e = h[i];
        let k = holder_key(e.0);
        let ghost before = items@;
        items.push((k, e));
        proof {
            assert(items@ == before.push((k, e)));
            assert(keyed_view(before).len() == before.len());
            assert(with_storage_keys(h@).len() == h@.len());
            assert(with_storage_keys(h@).take(i as int).len() == i);
            assert(before.len() == i);
            assert(keyed_view(items@).len() == i + 1);
            assert forall|m: int| 0 <= m < i + 1 implies #[trigger] keyed_view(items@)[m]
                == with_storage_keys(h@).take(i + 1)[m] by {
                if m < i {
                    assert(items@[m] == before[m]);
                    assert(keyed_view(before)[m] == with_storage_keys(h@).take(i as int)[m]);
                } else {
                    assert(items@[m] == (k, e));
                    assert(e == h@[i as int]);
                }
            }
        }
        assert(keyed_view(items@) =~= with_storage_keys(h@).take(i + 1));
        i = i + 1;
    }
    assert(with_storage_keys(h@).take(h@.len() as int) =~= with_storage_keys(h@));
    sort_by_key_bytes(&items)
}

} // verus!
