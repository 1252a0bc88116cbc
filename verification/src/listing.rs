//! Which entries of a live list are shown, and in what order.
//!
//! Disks are listed by mount point and network interfaces by name.  A name
//! is identified by its UTF-8 bytes and names are ordered byte by byte, the
//! way string keys are ordered in a sorted map.  Where two live entries
//! carry the same name the later one stands for both.
//!
//! The functions here work on the names alone and answer with positions in
//! the live list.

use vstd::prelude::*;
use vstd::utf8::encode_utf8;

verus! {

/// Whether `a` comes before `b` when the two are compared byte by byte from
/// position `i` on, a proper prefix coming before what extends it.
pub open spec fn precedes_from(a: Seq<u8>, b: Seq<u8>, i: int) -> bool
    decreases a.len() - i,
{
    if i >= b.len() {
        false
    } else if i >= a.len() {
        true
    } else if a[i] != b[i] {
        a[i] < b[i]
    } else {
        precedes_from(a, b, i + 1)
    }
}

/// Strict lexicographic order on byte strings.
pub open spec fn precedes(a: Seq<u8>, b: Seq<u8>) -> bool {
    precedes_from(a, b, 0)
}

/// The keys under which a list of names is looked up and ordered.
pub open spec fn keys(names: Seq<Seq<char>>) -> Seq<Seq<u8>> {
    Seq::new(names.len(), |i: int| encode_utf8(names[i]))
}

/// Positions as mathematical integers.
pub open spec fn positions(order: Seq<usize>) -> Seq<int> {
    Seq::new(order.len(), |p: int| order[p] as int)
}

/// The position of the last entry of `keys` that equals `key`.
pub open spec fn last_index_of(keys: Seq<Seq<u8>>, key: Seq<u8>) -> Option<int>
    decreases keys.len(),
{
    if keys.len() == 0 {
        None
    } else if keys.last() == key {
        Some(keys.len() - 1)
    } else {
        last_index_of(keys.drop_last(), key)
    }
}

/// The entries picked by an allow-list: for each listed key in turn, the
/// last live entry of that key; a listed key that is not live adds nothing.
pub open spec fn listed_order(keys: Seq<Seq<u8>>, allow: Seq<Seq<u8>>) -> Seq<int>
    decreases allow.len(),
{
    if allow.len() == 0 {
        Seq::empty()
    } else {
        let before = listed_order(keys, allow.drop_last());
        match last_index_of(keys, allow.last()) {
            Some(i) => before.push(i),
            None => before,
        }
    }
}

/// `order` after entry `k` has been filed into it: `k` takes the place of
/// an entry with the same key, or else goes in front of the first entry
/// whose key comes after its own.
pub open spec fn filed(keys: Seq<Seq<u8>>, order: Seq<int>, k: int) -> Seq<int>
    decreases order.len(),
{
    if order.len() == 0 {
        seq![k]
    } else if keys[order.first()] == keys[k] {
        seq![k] + order.drop_first()
    } else if precedes(keys[k], keys[order.first()]) {
        seq![k] + order
    } else {
        seq![order.first()] + filed(keys, order.drop_first(), k)
    }
}

/// All live entries in key order, as a sorted map built from the list in
/// its own order would hold them.
pub open spec fn sorted_order(keys: Seq<Seq<u8>>) -> Seq<int>
    decreases keys.len(),
{
    if keys.len() == 0 {
        Seq::empty()
    } else {
        filed(keys, sorted_order(keys.drop_last()), keys.len() - 1)
    }
}

/// The entries to show: those that a non-empty allow-list picks, in the
/// order of the list, or else every live entry in key order.
pub open spec fn display_order(keys: Seq<Seq<u8>>, allow: Seq<Seq<u8>>) -> Seq<int> {
    if allow.len() == 0 {
        sorted_order(keys)
    } else {
        listed_order(keys, allow)
    }
}

/// How one name stands to another in byte order.
#[derive(Debug, Clone, Copy, PartialEq, Eq, Structural)]
pub enum Rank {
    Before,
    Same,
    After,
}

/// Compares two names byte by byte.
pub fn rank(a: &str, b: &str) -> (r: Rank)
    ensures
        r == Rank::Same <==> a@ == b@,
        r == Rank::Same <==> encode_utf8(a@) == encode_utf8(b@),
        r == Rank::Before <==> precedes(encode_utf8(a@), encode_utf8(b@)),
        r == Rank::After <==> precedes(encode_utf8(b@), encode_utf8(a@)),
{
    let x = a.as_bytes();
    let y = b.as_bytes();
    let n = if x.len() < y.len() {
        x.len()
    } else {
        y.len()
    };
    proof {
        lemma_key_identifies(a@, b@);
    }
    let mut i: usize = 0;
    while i < n
        invariant
            i <= n,
            n <= x@.len(),
            n <= y@.len(),
            n == x@.len() || n == y@.len(),
            x@ == encode_utf8(a@),
            y@ == encode_utf8(b@),
            a@ == b@ <==> x@ == y@,
            forall|j: int| 0 <= j < i ==> x@[j] == y@[j],
            precedes(x@, y@) == precedes_from(x@, y@, i as int),
            precedes(y@, x@) == precedes_from(y@, x@, i as int),
        decreases n - i,
    {
        if x[i] < y[i] {
            assert(x@ != y@);
            return Rank::Before;
        }
        if x[i] > y[i] {
            assert(x@ != y@);
            return Rank::After;
        }
        i += 1;
    }
    if x.len() < y.len() {
        Rank::Before
    } else if x.len() > y.len() {
        Rank::After
    } else {
        assert(x@ =~= y@);
        Rank::Same
    }
}

/// The position of the last entry of `names` that is named `key`.
pub fn find_last(names: &Vec<String>, key: &str) -> (r: Option<usize>)
    ensures
        match r {
            Some(i) => i < names.len() && last_index_of(
                keys(names.deep_view()),
                encode_utf8(key@),
            ) == Some(i as int),
            None => last_index_of(keys(names.deep_view()), encode_utf8(key@)) is None,
        },
{
    let ghost ks = keys(names.deep_view());
    let ghost k = encode_utf8(key@);
    let mut i = names.len();
    assert(ks.take(i as int) =~= ks);
    while i > 0
        invariant
            i <= names.len(),
            ks == keys(names.deep_view()),
            k == encode_utf8(key@),
            last_index_of(ks, k) == last_index_of(ks.take(i as int), k),
        decreases i,
    {
        i -= 1;
        assert(ks.take(i + 1).last() == ks[i as int]);
        assert(ks.take(i + 1).drop_last() =~= ks.take(i as int));
        match rank(names[i].as_str(), key) {
            Rank::Same => {
                return Some(i);
            },
            _ => {},
        }
    }
    None
}

/// The entries that the allow-list `allow` picks from `names`.
pub fn listed(names: &Vec<String>, allow: &Vec<String>) -> (order: Vec<usize>)
    ensures
        positions(order@) == listed_order(keys(names.deep_view()), keys(allow.deep_view())),
        forall|p: int| 0 <= p < order.len() ==> order[p] < names.len(),
{
    let ghost wanted = keys(allow.deep_view());
    let mut order: Vec<usize> = Vec::new();
    let mut j: usize = 0;
    assert(positions(order@) =~= Seq::<int>::empty());
    while j < allow.len()
        invariant
            j <= allow.len(),
            wanted == keys(allow.deep_view()),
            positions(order@) == listed_order(keys(names.deep_view()), wanted.take(j as int)),
            forall|p: int| 0 <= p < order.len() ==> order[p] < names.len(),
        decreases allow.len() - j,
    {
        let found = find_last(names, allow[j].as_str());
        proof {
            assert(wanted.take(j + 1).last() == encode_utf8(allow[j as int]@));
            assert(wanted.take(j + 1).drop_last() =~= wanted.take(j as int));
        }
        let ghost before = positions(order@);
        match found {
            Some(i) => {
                order.push(i);
                assert(positions(order@) =~= before.push(i as int));
            },
            None => {},
        }
        j += 1;
    }
    assert(wanted.take(j as int) =~= wanted);
    order
}

/// Files entry `k` of `names` into `order`.
fn file_entry(names: &Vec<String>, order: &mut Vec<usize>, k: usize)
    requires
        k < names.len(),
        forall|q: int| 0 <= q < old(order).len() ==> old(order)[q] < names.len(),
    ensures
        positions(final(order)@) == filed(
            keys(names.deep_view()),
            positions(old(order)@),
            k as int,
        ),
        forall|q: int| 0 <= q < final(order).len() ==> final(order)[q] < names.len(),
{
    let ghost ks = keys(names.deep_view());
    let ghost before = positions(order@);
    let mut p: usize = 0;
    assert(before.take(0) + filed(ks, before.skip(0), k as int) =~= filed(ks, before, k as int))
        by {
        assert(before.skip(0) =~= before);
    }
    while p < order.len()
        invariant
            p <= order.len(),
            k < names.len(),
            order@ == old(order)@,
            ks == keys(names.deep_view()),
            before == positions(order@),
            forall|q: int| 0 <= q < order.len() ==> order[q] < names.len(),
            filed(ks, before, k as int) == before.take(p as int) + filed(
                ks,
                before.skip(p as int),
                k as int,
            ),
        decreases order.len() - p,
    {
        let at = order[p];
        let ghost rest = before.skip(p as int);
        assert(rest.first() == at as int);
        assert(rest.drop_first() =~= before.skip(p + 1));
        match rank(names[k].as_str(), names[at].as_str()) {
            Rank::Same => {
                order[p] = k;
                assert(positions(order@) =~= before.take(p as int) + (seq![k as int]
                    + rest.drop_first()));
                return ;
            },
            Rank::Before => {
                order.insert(p, k);
                assert(positions(order@) =~= before.take(p as int) + (seq![k as int] + rest));
                return ;
            },
            Rank::After => {
                assert(before.take(p + 1) + filed(ks, before.skip(p + 1), k as int)
                    =~= before.take(p as int) + (seq![at as int] + filed(
                    ks,
                    rest.drop_first(),
                    k as int,
                )));
                p += 1;
            },
        }
    }
    order.push(k);
    assert(positions(order@) =~= before.take(p as int) + seq![k as int]);
}

/// Every entry of `names` in key order, the last one of each name.
pub fn sorted(names: &Vec<String>) -> (order: Vec<usize>)
    ensures
        positions(order@) == sorted_order(keys(names.deep_view())),
        forall|p: int| 0 <= p < order.len() ==> order[p] < names.len(),
{
    let ghost ks = keys(names.deep_view());
    let mut order: Vec<usize> = Vec::new();
    let mut k: usize = 0;
    assert(positions(order@) =~= Seq::<int>::empty());
    while k < names.len()
        invariant
            k <= names.len(),
            ks == keys(names.deep_view()),
            positions(order@) == sorted_order(ks.take(k as int)),
            forall|p: int| 0 <= p < order.len() ==> order[p] < k,
        decreases names.len() - k,
    {
        let ghost before = positions(order@);
        proof {
            assert(ks.take(k + 1).drop_last() =~= ks.take(k as int));
            lemma_filed_reads_its_entries(ks, ks.take(k + 1), before, k as int);
        }
        file_entry(names, &mut order, k);
        proof {
            lemma_filed_holds(ks, before, k as int);
            let after = filed(ks, before, k as int);
            assert forall|p: int| 0 <= p < order.len() implies order[p] <= k by {
                assert(after[p] == order[p] as int);
                if after[p] != k {
                    let q = choose|q: int| 0 <= q < before.len() && before[q] == after[p];
                    assert(before[q] < k);
                }
            }
        }
        k += 1;
    }
    assert(ks.take(k as int) =~= ks);
    order
}

/// The entries of `names` to show under the allow-list `allow`.
pub fn display_order_of(names: &Vec<String>, allow: &Vec<String>) -> (order: Vec<usize>)
    ensures
        positions(order@) == display_order(keys(names.deep_view()), keys(allow.deep_view())),
        forall|p: int| 0 <= p < order.len() ==> order[p] < names.len(),
{
    if allow.is_empty() {
        sorted(names)
    } else {
        listed(names, allow)
    }
}

/// Filing looks only at the keys of the entries it handles.
proof fn lemma_filed_reads_its_entries(a: Seq<Seq<u8>>, b: Seq<Seq<u8>>, order: Seq<int>, k: int)
    requires
        0 <= k < a.len(),
        k < b.len(),
        a[k] == b[k],
        forall|p: int|
            0 <= p < order.len() ==> 0 <= order[p] < a.len() && order[p] < b.len() && a[order[p]]
                == b[order[p]],
    ensures
        filed(a, order, k) == filed(b, order, k),
    decreases order.len(),
{
    if order.len() > 0 {
        lemma_filed_reads_its_entries(a, b, order.drop_first(), k);
    }
}

/// Filing adds `k` and keeps or drops what was there.
proof fn lemma_filed_holds(keys: Seq<Seq<u8>>, order: Seq<int>, k: int)
    ensures
        forall|p: int|
            0 <= p < filed(keys, order, k).len() ==> #[trigger] filed(keys, order, k)[p] == k
                || order.contains(filed(keys, order, k)[p]),
    decreases order.len(),
{
    let r = filed(keys, order, k);
    if order.len() == 0 {
    } else if keys[order.first()] == keys[k] {
        assert forall|p: int| 0 <= p < r.len() implies #[trigger] r[p] == k || order.contains(
            r[p],
        ) by {
            if p > 0 {
                assert(r[p] == order[p]);
            }
        }
    } else if precedes(keys[k], keys[order.first()]) {
        assert forall|p: int| 0 <= p < r.len() implies #[trigger] r[p] == k || order.contains(
            r[p],
        ) by {
            if p > 0 {
                assert(r[p] == order[p - 1]);
            }
        }
    } else {
        lemma_filed_holds(keys, order.drop_first(), k);
        let tail = filed(keys, order.drop_first(), k);
        assert forall|p: int| 0 <= p < r.len() implies #[trigger] r[p] == k || order.contains(
            r[p],
        ) by {
            if p == 0 {
                assert(r[p] == order[0]);
            } else {
                assert(r[p] == tail[p - 1]);
                if tail[p - 1] != k {
                    let q = choose|q: int|
                        0 <= q < order.drop_first().len() && order.drop_first()[q] == tail[p - 1];
                    assert(order[q + 1] == tail[p - 1]);
                }
            }
        }
    }
}

/// Two names are the same exactly when their keys are.
pub proof fn lemma_key_identifies(a: Seq<char>, b: Seq<char>)
    ensures
        a == b <==> encode_utf8(a) == encode_utf8(b),
{
    vstd::utf8::encode_utf8_decode_utf8(a);
    vstd::utf8::encode_utf8_decode_utf8(b);
}

/// No byte string comes before itself.
pub proof fn lemma_precedes_irreflexive(a: Seq<u8>, i: int)
    requires
        0 <= i,
    ensures
        !precedes_from(a, a, i),
    decreases a.len() - i,
{
    if i < a.len() {
        lemma_precedes_irreflexive(a, i + 1);
    }
}

/// What comes before something that comes before a third comes before the
/// third.
pub proof fn lemma_precedes_transitive(a: Seq<u8>, b: Seq<u8>, c: Seq<u8>, i: int)
    requires
        0 <= i,
        precedes_from(a, b, i),
        precedes_from(b, c, i),
    ensures
        precedes_from(a, c, i),
    decreases a.len() - i,
{
    if i < a.len() && a[i] == b[i] && b[i] == c[i] {
        lemma_precedes_transitive(a, b, c, i + 1);
    }
}

/// Of two byte strings that agree up to position `i`, one comes before the
/// other unless they are the same.
pub proof fn lemma_precedes_total(a: Seq<u8>, b: Seq<u8>, i: int)
    requires
        0 <= i <= a.len(),
        i <= b.len(),
        forall|j: int| 0 <= j < i ==> a[j] == b[j],
    ensures
        a == b || precedes_from(a, b, i) || precedes_from(b, a, i),
    decreases a.len() - i,
{
    if i < a.len() && i < b.len() && a[i] == b[i] {
        lemma_precedes_total(a, b, i + 1);
    } else if i == a.len() && i == b.len() {
        assert(a =~= b);
    }
}

/// What `last_index_of` finds is the last place where the key stands, and
/// it finds nothing only where the key stands nowhere.
pub proof fn lemma_last_index_of(keys: Seq<Seq<u8>>, key: Seq<u8>)
    ensures
        match last_index_of(keys, key) {
            Some(i) => {
                &&& 0 <= i < keys.len()
                &&& keys[i] == key
                &&& forall|j: int| i < j < keys.len() ==> keys[j] != key
            },
            None => forall|j: int| 0 <= j < keys.len() ==> keys[j] != key,
        },
    decreases keys.len(),
{
    if keys.len() > 0 && keys.last() != key {
        let older = keys.drop_last();
        lemma_last_index_of(older, key);
        assert forall|j: int| 0 <= j < older.len() implies older[j] == keys[j] by {}
        match last_index_of(older, key) {
            Some(i) => {
                assert forall|j: int| i < j < keys.len() implies keys[j] != key by {
                    if j < older.len() {
                        assert(older[j] == keys[j]);
                    }
                }
            },
            None => {
                assert forall|j: int| 0 <= j < keys.len() implies keys[j] != key by {
                    if j < older.len() {
                        assert(older[j] == keys[j]);
                    }
                }
            },
        }
    }
}

/// Whether `order` runs in strictly rising key order.
pub open spec fn in_key_order(keys: Seq<Seq<u8>>, order: Seq<int>) -> bool {
    forall|p: int, q: int|
        0 <= p < q < order.len() ==> precedes(#[trigger] keys[order[p]], #[trigger] keys[order[q]])
}

/// Whether each entry of `order` is the last live entry of its key.
pub open spec fn shows_last_of_each(keys: Seq<Seq<u8>>, order: Seq<int>) -> bool {
    forall|p: int|
        0 <= p < order.len() ==> 0 <= #[trigger] order[p] < keys.len() && last_index_of(
            keys,
            keys[order[p]],
        ) == Some(order[p])
}

/// Whether every live key has an entry in `order`.
pub open spec fn shows_every_key(keys: Seq<Seq<u8>>, order: Seq<int>) -> bool {
    forall|i: int|
        0 <= i < keys.len() ==> exists|p: int|
            0 <= p < order.len() && 0 <= order[p] < keys.len() && #[trigger] keys[order[p]]
                == #[trigger] keys[i]
}

/// Filing into a list in key order leaves it in key order; the result holds
/// the new entry and, of the old ones, those with another key.
proof fn lemma_filed_in_key_order(keys: Seq<Seq<u8>>, order: Seq<int>, k: int)
    requires
        in_key_order(keys, order),
    ensures
        in_key_order(keys, filed(keys, order, k)),
        forall|x: int|
            filed(keys, order, k).contains(x) <==> x == k || (order.contains(x) && keys[x]
                != keys[k]),
    decreases order.len(),
{
    let r = filed(keys, order, k);
    if order.len() == 0 {
        assert(r[0] == k);
        assert forall|x: int| r.contains(x) <==> x == k || (order.contains(x) && keys[x]
            != keys[k]) by {
            if r.contains(x) {
                let p = choose|p: int| 0 <= p < r.len() && r[p] == x;
            }
        }
    } else {
        let head = order.first();
        let tail = order.drop_first();
        assert forall|x: int| tail.contains(x) implies order.contains(x) && precedes(
            keys[head],
            keys[x],
        ) by {
            let q = choose|q: int| 0 <= q < tail.len() && tail[q] == x;
            assert(order[q + 1] == x);
            assert(order[0] == head);
        }
        assert forall|x: int| order.contains(x) implies x == head || tail.contains(x) by {
            let q = choose|q: int| 0 <= q < order.len() && order[q] == x;
            if q > 0 {
                assert(tail[q - 1] == x);
            }
        }
        assert(order.contains(head)) by {
            assert(order[0] == head);
        }
        assert(in_key_order(keys, tail)) by {
            assert forall|p: int, q: int| 0 <= p < q < tail.len() implies precedes(
                #[trigger] keys[tail[p]],
                #[trigger] keys[tail[q]],
            ) by {
                assert(tail[p] == order[p + 1] && tail[q] == order[q + 1]);
            }
        }
        if keys[head] == keys[k] {
            assert(r[0] == k);
            assert forall|p: int| 1 <= p < r.len() implies r[p] == tail[p - 1] by {}
            assert forall|p: int, q: int| 0 <= p < q < r.len() implies precedes(
                #[trigger] keys[r[p]],
                #[trigger] keys[r[q]],
            ) by {
                assert(r[q] == tail[q - 1]);
                if p == 0 {
                    assert(tail.contains(tail[q - 1]));
                } else {
                    assert(r[p] == tail[p - 1]);
                }
            }
            assert forall|x: int| r.contains(x) <==> x == k || (order.contains(x) && keys[x]
                != keys[k]) by {
                if r.contains(x) {
                    let p = choose|p: int| 0 <= p < r.len() && r[p] == x;
                    if p > 0 {
                        assert(tail.contains(tail[p - 1]));
                        lemma_precedes_irreflexive(keys[x], 0);
                    }
                }
                if x == k {
                    assert(r[0] == x);
                }
                if order.contains(x) && keys[x] != keys[k] {
                    let q = choose|q: int| 0 <= q < tail.len() && tail[q] == x;
                    assert(r[q + 1] == x);
                }
            }
        } else if precedes(keys[k], keys[head]) {
            assert(r[0] == k);
            assert forall|p: int| 1 <= p < r.len() implies r[p] == order[p - 1] by {}
            assert forall|x: int| order.contains(x) implies precedes(keys[k], keys[x]) by {
                if x != head {
                    lemma_precedes_transitive(keys[k], keys[head], keys[x], 0);
                }
            }
            assert forall|p: int, q: int| 0 <= p < q < r.len() implies precedes(
                #[trigger] keys[r[p]],
                #[trigger] keys[r[q]],
            ) by {
                assert(r[q] == order[q - 1]);
                if p == 0 {
                    assert(order.contains(order[q - 1]));
                } else {
                    assert(r[p] == order[p - 1]);
                }
            }
            assert forall|x: int| r.contains(x) <==> x == k || (order.contains(x) && keys[x]
                != keys[k]) by {
                if r.contains(x) {
                    let p = choose|p: int| 0 <= p < r.len() && r[p] == x;
                    if p > 0 {
                        assert(order.contains(order[p - 1]));
                        lemma_precedes_irreflexive(keys[k], 0);
                    }
                }
                if x == k {
                    assert(r[0] == x);
                }
                if order.contains(x) && keys[x] != keys[k] {
                    let q = choose|q: int| 0 <= q < order.len() && order[q] == x;
                    assert(r[q + 1] == x);
                }
            }
        } else {
            lemma_filed_in_key_order(keys, tail, k);
            lemma_precedes_total(keys[head], keys[k], 0);
            let rest = filed(keys, tail, k);
            assert(r[0] == head);
            assert forall|p: int| 1 <= p < r.len() implies r[p] == rest[p - 1] by {}
            assert forall|p: int, q: int| 0 <= p < q < r.len() implies precedes(
                #[trigger] keys[r[p]],
                #[trigger] keys[r[q]],
            ) by {
                assert(r[q] == rest[q - 1]);
                assert(rest.contains(rest[q - 1]));
                if p > 0 {
                    assert(r[p] == rest[p - 1]);
                }
            }
            assert forall|x: int| r.contains(x) <==> x == k || (order.contains(x) && keys[x]
                != keys[k]) by {
                if r.contains(x) {
                    let p = choose|p: int| 0 <= p < r.len() && r[p] == x;
                    if p > 0 {
                        assert(rest.contains(rest[p - 1]));
                    }
                }
                if x == head {
                    assert(r[0] == x);
                }
                if rest.contains(x) {
                    let q = choose|q: int| 0 <= q < rest.len() && rest[q] == x;
                    assert(r[q + 1] == x);
                }
            }
        }
    }
}

/// With an empty allow-list every live name is shown once, by its last
/// entry, and the names rise in byte order.
pub proof fn lemma_sorted_order(keys: Seq<Seq<u8>>)
    ensures
        in_key_order(keys, sorted_order(keys)),
        shows_last_of_each(keys, sorted_order(keys)),
        shows_every_key(keys, sorted_order(keys)),
    decreases keys.len(),
{
    let r = sorted_order(keys);
    if keys.len() > 0 {
        let k = keys.len() - 1;
        let older = keys.drop_last();
        let before = sorted_order(older);
        lemma_sorted_order(older);
        assert(in_key_order(keys, before)) by {
            assert forall|p: int, q: int| 0 <= p < q < before.len() implies precedes(
                #[trigger] keys[before[p]],
                #[trigger] keys[before[q]],
            ) by {
                assert(older[before[p]] == keys[before[p]]);
                assert(older[before[q]] == keys[before[q]]);
            }
        }
        lemma_filed_in_key_order(keys, before, k);
        assert forall|p: int| 0 <= p < r.len() implies 0 <= #[trigger] r[p] < keys.len()
            && last_index_of(keys, keys[r[p]]) == Some(r[p]) by {
            let x = r[p];
            assert(r.contains(x));
            if x != k {
                let q = choose|q: int| 0 <= q < before.len() && before[q] == x;
                assert(older[before[q]] == keys[x]);
            }
        }
        assert forall|i: int| 0 <= i < keys.len() implies exists|p: int|
            0 <= p < r.len() && 0 <= r[p] < keys.len() && #[trigger] keys[r[p]]
                == #[trigger] keys[i] by {
            if keys[i] == keys[k] {
                assert(r.contains(k));
                let p = choose|p: int| 0 <= p < r.len() && r[p] == k;
                assert(keys[r[p]] == keys[i]);
            } else {
                assert(older[i] == keys[i]);
                let q = choose|q: int|
                    0 <= q < before.len() && 0 <= before[q] < older.len()
                        && #[trigger] older[before[q]] == older[i];
                let x = before[q];
                assert(before.contains(x));
                assert(r.contains(x));
                let p = choose|p: int| 0 <= p < r.len() && r[p] == x;
                assert(keys[r[p]] == keys[i]);
            }
        }
    }
}

/// With an allow-list only listed names are shown: every entry shown is
/// the last live entry of a name on the list, and there are no more
/// entries than names on the list.
pub proof fn lemma_listed_order_shows_listed(keys: Seq<Seq<u8>>, allow: Seq<Seq<u8>>)
    ensures
        listed_order(keys, allow).len() <= allow.len(),
        forall|p: int|
            0 <= p < listed_order(keys, allow).len() ==> {
                let i = #[trigger] listed_order(keys, allow)[p];
                &&& 0 <= i < keys.len()
                &&& exists|j: int|
                    0 <= j < allow.len() && #[trigger] allow[j] == keys[i] && last_index_of(
                        keys,
                        allow[j],
                    ) == Some(i)
            },
    decreases allow.len(),
{
    if allow.len() > 0 {
        let shorter = allow.drop_last();
        let before = listed_order(keys, shorter);
        let r = listed_order(keys, allow);
        lemma_listed_order_shows_listed(keys, shorter);
        lemma_last_index_of(keys, allow.last());
        assert forall|p: int| 0 <= p < r.len() implies {
            let i = #[trigger] r[p];
            &&& 0 <= i < keys.len()
            &&& exists|j: int|
                0 <= j < allow.len() && #[trigger] allow[j] == keys[i] && last_index_of(
                    keys,
                    allow[j],
                ) == Some(i)
        } by {
            let i = r[p];
            if p < before.len() {
                assert(r[p] == before[p]);
                let j = choose|j: int|
                    0 <= j < shorter.len() && #[trigger] shorter[j] == keys[i] && last_index_of(
                        keys,
                        shorter[j],
                    ) == Some(i);
                assert(allow[j] == shorter[j]);
            } else {
                let j = allow.len() - 1;
                assert(allow[j] == allow.last());
                assert(last_index_of(keys, allow[j]) == Some(i));
            }
        }
    }
}

/// A listed name shows its last live entry, or nothing if it is not live.
pub proof fn lemma_listed_one(keys: Seq<Seq<u8>>, name: Seq<u8>)
    ensures
        listed_order(keys, seq![name]) == match last_index_of(keys, name) {
            Some(i) => seq![i],
            None => Seq::<int>::empty(),
        },
{
    let one = seq![name];
    assert(one.drop_last() =~= Seq::<Seq<u8>>::empty());
    assert(one.last() == name);
    assert(listed_order(keys, one.drop_last()) =~= Seq::<int>::empty());
    assert(Seq::<int>::empty().push(0) =~= seq![0int]);
    match last_index_of(keys, name) {
        Some(i) => {
            assert(Seq::<int>::empty().push(i) =~= seq![i]);
        },
        None => {},
    }
}

/// What an allow-list shows is what its parts show, one after the other:
/// the names appear in the order in which they are listed.
pub proof fn lemma_listed_concat(keys: Seq<Seq<u8>>, head: Seq<Seq<u8>>, tail: Seq<Seq<u8>>)
    ensures
        listed_order(keys, head + tail) == listed_order(keys, head) + listed_order(
            keys,
            tail,
        ),
    decreases tail.len(),
{
    if tail.len() == 0 {
        assert(head + tail =~= head);
        assert(listed_order(keys, head) + Seq::<int>::empty() =~= listed_order(keys, head));
    } else {
        let all = head + tail;
        assert(all.drop_last() =~= head + tail.drop_last());
        assert(all.last() == tail.last());
        lemma_listed_concat(keys, head, tail.drop_last());
        let a = listed_order(keys, head);
        let b = listed_order(keys, tail.drop_last());
        match last_index_of(keys, tail.last()) {
            Some(i) => {
                assert((a + b).push(i) =~= a + b.push(i));
            },
            None => {},
        }
    }
}

} // verus!
