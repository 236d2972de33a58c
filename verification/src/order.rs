//! The order in which devices are listed, and the stable sort that brings
//! them into it.

use crate::device::{DeviceEntry, DeviceItem, MidiKind};
use crate::text::{
    folded, lemma_text_lt_asymmetric, lemma_text_lt_total, lemma_text_lt_transitive, lowercase,
    text_less, text_lt,
};
use vstd::prelude::*;

verus! {

/// What the list of devices is ordered by: the kind, then the name without
/// regard to case.
pub struct SortKey {
    pub kind: MidiKind,
    pub folded: Seq<char>,
}

/// `a` is listed strictly before `b`: inputs before outputs, and within a
/// kind by the folded name.
pub open spec fn key_lt(a: SortKey, b: SortKey) -> bool {
    if a.kind == b.kind {
        text_lt(a.folded, b.folded)
    } else {
        a.kind == MidiKind::Input
    }
}

/// Of the positions `a` and `b` in `keys`, `a` is the one to list first:
/// its key is smaller, or the keys are level and `a` is the earlier position.
pub open spec fn comes_first(keys: Seq<SortKey>, a: int, b: int) -> bool {
    key_lt(keys[a], keys[b]) || (!key_lt(keys[b], keys[a]) && a < b)
}

/// `p` lists the positions of `keys` in stable sorted order: `p[i]` is the
/// position that the element listed at `i` came from.
pub open spec fn stable_order(p: Seq<int>, keys: Seq<SortKey>) -> bool {
    &&& p.len() == keys.len()
    &&& forall|i: int| 0 <= i < p.len() ==> 0 <= #[trigger] p[i] < keys.len()
    &&& forall|i: int, j: int|
        0 <= i < j < p.len() ==> comes_first(keys, #[trigger] p[i], #[trigger] p[j])
}

/// The elements of `items` taken in the order that `p` lists.
pub open spec fn rearranged<T>(items: Seq<T>, p: Seq<int>) -> Seq<T> {
    Seq::new(p.len(), |i: int| items[p[i]])
}

/// A device together with the folded name that it is sorted by.
#[derive(Debug)]
pub struct Keyed {
    pub name: Vec<char>,
    pub item: DeviceItem,
}

/// The sort keys of keyed devices: the kind of each, and the name that was
/// given for it.
pub open spec fn sort_keys(keyed: Seq<Keyed>) -> Seq<SortKey> {
    Seq::new(keyed.len(), |i: int| SortKey { kind: keyed[i].item.key.kind, folded: keyed[i].name@ })
}

/// The devices of keyed devices, without the names.
pub open spec fn items_of(keyed: Seq<Keyed>) -> Seq<DeviceItem> {
    Seq::new(keyed.len(), |i: int| keyed[i].item)
}

/// The sort key of a device: its kind and its name in lower case.
pub open spec fn device_key(device: DeviceEntry) -> SortKey {
    SortKey { kind: device.key.kind, folded: lowercase(device.key.name) }
}

/// The sort keys of `devices`.
pub open spec fn device_keys(devices: Seq<DeviceEntry>) -> Seq<SortKey> {
    Seq::new(devices.len(), |i: int| device_key(devices[i]))
}

/// `sorted` holds the elements of `devices` in stable sorted order: by
/// kind and lower-case name, and devices with level keys in the order in
/// which `devices` has them.
pub open spec fn stable_sorted(sorted: Seq<DeviceEntry>, devices: Seq<DeviceEntry>) -> bool {
    exists|p: Seq<int>| #[trigger]
        stable_order(p, device_keys(devices)) && sorted == rearranged(devices, p)
}

/// Every input is listed before every output, and within a kind the names
/// ascend without regard to case.
pub open spec fn in_listing_order(devices: Seq<DeviceEntry>) -> bool {
    forall|i: int, j: int|
        0 <= i < j < devices.len() ==> {
            let a = (#[trigger] devices[i]).key;
            let b = (#[trigger] devices[j]).key;
            &&& !(a.kind == MidiKind::Output && b.kind == MidiKind::Input)
            &&& a.kind == b.kind ==> !text_lt(lowercase(b.name), lowercase(a.name))
        }
}

/// The order of keys never holds both ways.
pub proof fn lemma_key_lt_asymmetric(a: SortKey, b: SortKey)
    ensures
        !(key_lt(a, b) && key_lt(b, a)),
{
    lemma_text_lt_asymmetric(a.folded, b.folded);
}

/// If `a` is listed before `c`, then any `b` is listed after `a` or before `c`.
pub proof fn lemma_key_lt_between(a: SortKey, b: SortKey, c: SortKey)
    requires
        key_lt(a, c),
    ensures
        key_lt(a, b) || key_lt(b, c),
{
    if a.kind == b.kind && b.kind == c.kind {
        lemma_text_lt_total(a.folded, b.folded);
        if text_lt(b.folded, a.folded) {
            lemma_text_lt_transitive(b.folded, a.folded, c.folded);
        }
    }
}

/// What is in stable sorted order is in listing order.
pub proof fn lemma_stable_sorted_in_order(sorted: Seq<DeviceEntry>, devices: Seq<DeviceEntry>)
    requires
        stable_sorted(sorted, devices),
    ensures
        sorted.len() == devices.len(),
        in_listing_order(sorted),
{
    let keys = device_keys(devices);
    let p = choose|p: Seq<int>| #[trigger]
        stable_order(p, keys) && sorted == rearranged(devices, p);
    assert forall|i: int, j: int| 0 <= i < j < sorted.len() implies {
        let a = (#[trigger] sorted[i]).key;
        let b = (#[trigger] sorted[j]).key;
        &&& !(a.kind == MidiKind::Output && b.kind == MidiKind::Input)
        &&& a.kind == b.kind ==> !text_lt(lowercase(b.name), lowercase(a.name))
    } by {
        assert(comes_first(keys, p[i], p[j]));
        lemma_key_lt_asymmetric(keys[p[i]], keys[p[j]]);
    }
}

/// Of two different positions exactly one is the one to list first.
pub proof fn lemma_comes_first_decides(keys: Seq<SortKey>, a: int, b: int)
    ensures
        !(comes_first(keys, a, b) && comes_first(keys, b, a)),
        a != b ==> comes_first(keys, a, b) || comes_first(keys, b, a),
{
    lemma_key_lt_asymmetric(keys[a], keys[b]);
}

proof fn lemma_ascending_unique(p: Seq<int>, q: Seq<int>, keys: Seq<SortKey>)
    requires
        p.len() == q.len(),
        forall|x: int| p.contains(x) <==> q.contains(x),
        forall|i: int, j: int|
            0 <= i < j < p.len() ==> comes_first(keys, #[trigger] p[i], #[trigger] p[j]),
        forall|i: int, j: int|
            0 <= i < j < q.len() ==> comes_first(keys, #[trigger] q[i], #[trigger] q[j]),
    ensures
        p == q,
    decreases p.len(),
{
    if p.len() == 0 {
        assert(p =~= q);
    } else {
        let n = p.len() as int;
        let a = p[n - 1];
        let b = q[n - 1];
        assert(p.contains(a));
        assert(q.contains(b));
        let j = choose|j: int| 0 <= j < n && q[j] == a;
        let i = choose|i: int| 0 <= i < n && p[i] == b;
        lemma_comes_first_decides(keys, a, b);
        if j < n - 1 {
            assert(comes_first(keys, q[j], q[n - 1]));
        }
        if i < n - 1 {
            assert(comes_first(keys, p[i], p[n - 1]));
        }
        assert(a == b);
        let p_front = p.drop_last();
        let q_front = q.drop_last();
        assert forall|x: int| p_front.contains(x) <==> q_front.contains(x) by {
            if p_front.contains(x) {
                let at_p = choose|at_p: int| 0 <= at_p < p_front.len() && p_front[at_p] == x;
                assert(p[at_p] == x);
                assert(comes_first(keys, p[at_p], p[n - 1]));
                lemma_comes_first_decides(keys, x, a);
                assert(p.contains(x));
                let at_q = choose|at_q: int| 0 <= at_q < n && q[at_q] == x;
                assert(q_front[at_q] == x);
            }
            if q_front.contains(x) {
                let at_q = choose|at_q: int| 0 <= at_q < q_front.len() && q_front[at_q] == x;
                assert(q[at_q] == x);
                assert(comes_first(keys, q[at_q], q[n - 1]));
                lemma_comes_first_decides(keys, x, b);
                assert(q.contains(x));
                let at_p = choose|at_p: int| 0 <= at_p < n && p[at_p] == x;
                assert(p_front[at_p] == x);
            }
        }
        assert forall|i: int, j: int| 0 <= i < j < p_front.len() implies comes_first(
            keys,
            #[trigger] p_front[i],
            #[trigger] p_front[j],
        ) by {
            assert(p_front[i] == p[i] && p_front[j] == p[j]);
        }
        assert forall|i: int, j: int| 0 <= i < j < q_front.len() implies comes_first(
            keys,
            #[trigger] q_front[i],
            #[trigger] q_front[j],
        ) by {
            assert(q_front[i] == q[i] && q_front[j] == q[j]);
        }
        lemma_ascending_unique(p_front, q_front, keys);
        assert(p =~= p_front.push(a));
        assert(q =~= q_front.push(b));
    }
}

proof fn lemma_stable_order_covers(p: Seq<int>, keys: Seq<SortKey>)
    requires
        stable_order(p, keys),
    ensures
        forall|x: int| p.contains(x) <==> 0 <= x < keys.len(),
{
    let n = keys.len() as int;
    assert forall|i: int, j: int| 0 <= i < p.len() && 0 <= j < p.len() && i != j implies p[i]
        != p[j] by {
        lemma_comes_first_decides(keys, p[i], p[j]);
        if i < j {
            assert(comes_first(keys, p[i], p[j]));
        } else {
            assert(comes_first(keys, p[j], p[i]));
        }
    }
    assert(p.no_duplicates());
    p.unique_seq_to_set();
    vstd::set_lib::lemma_int_range(0, n);
    let range = vstd::set_lib::set_int_range(0, n);
    assert(p.to_set().subset_of(range)) by {
        assert forall|x: int| p.to_set().contains(x) implies range.contains(x) by {
            let i = choose|i: int| 0 <= i < p.len() && p[i] == x;
            assert(0 <= p[i] < n);
        }
    }
    vstd::set_lib::lemma_subset_equality(p.to_set(), range);
    assert forall|x: int| p.contains(x) <==> 0 <= x < n by {
        assert(p.to_set().contains(x) <==> range.contains(x));
    }
}

/// A sequence of keys has one stable sorted order and no other.
pub proof fn lemma_stable_order_unique(p: Seq<int>, q: Seq<int>, keys: Seq<SortKey>)
    requires
        stable_order(p, keys),
        stable_order(q, keys),
    ensures
        p == q,
{
    lemma_stable_order_covers(p, keys);
    lemma_stable_order_covers(q, keys);
    lemma_ascending_unique(p, q, keys);
}

/// A list of devices has one stable sorted arrangement and no other.
pub proof fn lemma_stable_sorted_unique(
    first: Seq<DeviceEntry>,
    second: Seq<DeviceEntry>,
    devices: Seq<DeviceEntry>,
)
    requires
        stable_sorted(first, devices),
        stable_sorted(second, devices),
    ensures
        first == second,
{
    let keys = device_keys(devices);
    let p = choose|p: Seq<int>| #[trigger]
        stable_order(p, keys) && first == rearranged(devices, p);
    let q = choose|q: Seq<int>| #[trigger]
        stable_order(q, keys) && second == rearranged(devices, q);
    lemma_stable_order_unique(p, q, keys);
}

/// Whether the key of the first kind and folded name is listed strictly before
/// the key of the second.
pub fn key_less(a_kind: MidiKind, a_name: &Vec<char>, b_kind: MidiKind, b_name: &Vec<char>) -> (r:
    bool)
    ensures
        r == key_lt(
            SortKey { kind: a_kind, folded: a_name@ },
            SortKey { kind: b_kind, folded: b_name@ },
        ),
{
    match (a_kind, b_kind) {
        (MidiKind::Input, MidiKind::Output) => true,
        (MidiKind::Output, MidiKind::Input) => false,
        _ => text_less(a_name, b_name),
    }
}

/// Sorts the devices by kind and by the folded name given for each,
/// keeping devices with level keys in the order in which they came.
pub fn sort_keyed(keyed: Vec<Keyed>) -> (out: Vec<DeviceItem>)
    ensures
        exists|p: Seq<int>|
            #[trigger] stable_order(p, sort_keys(keyed@)) && out@ == rearranged(
                items_of(keyed@),
                p,
            ),
{
    let ghost keys = sort_keys(keyed@);
    let ghost total = items_of(keyed@);
    let ghost all = keyed@;
    let mut keyed = keyed;
    let mut out: Vec<DeviceItem> = Vec::new();
    let mut out_names: Vec<Vec<char>> = Vec::new();
    let ghost mut p: Seq<int> = Seq::empty();
    while keyed.len() > 0
        invariant
            keys == sort_keys(all),
            total == items_of(all),
            keyed.len() <= all.len(),
            keyed@ == all.take(keyed.len() as int),
            out.len() == p.len(),
            out_names.len() == p.len(),
            p.len() == all.len() - keyed.len(),
            forall|i: int| 0 <= i < p.len() ==> keyed.len() <= #[trigger] p[i] < all.len(),
            forall|i: int| 0 <= i < p.len() ==> out[i] == total[#[trigger] p[i]],
            forall|i: int|
                0 <= i < p.len() ==> keys[#[trigger] p[i]] == (SortKey {
                    kind: out[i].key.kind,
                    folded: out_names[i]@,
                }),
            forall|i: int, j: int|
                0 <= i < j < p.len() ==> comes_first(keys, #[trigger] p[i], #[trigger] p[j]),
        decreases keyed.len(),
    {
        let ghost k = keyed.len() - 1;
        let ghost before = p;
        let Keyed { name, item } = keyed.pop().unwrap();
        assert(item == total[k] && keys[k] == (SortKey { kind: item.key.kind, folded: name@ }));
        let mut pos: usize = 0;
        while pos < out.len() && key_less(
            out[pos].key.kind,
            &out_names[pos],
            item.key.kind,
            &name,
        )
            invariant
                pos <= out.len(),
                out.len() == p.len(),
                out_names.len() == p.len(),
                0 <= k < keys.len(),
                keys[k] == (SortKey { kind: item.key.kind, folded: name@ }),
                forall|i: int| 0 <= i < p.len() ==> 0 <= #[trigger] p[i] < keys.len(),
                forall|i: int|
                    0 <= i < p.len() ==> keys[#[trigger] p[i]] == (SortKey {
                        kind: out[i].key.kind,
                        folded: out_names[i]@,
                    }),
                forall|i: int| 0 <= i < pos ==> key_lt(keys[#[trigger] p[i]], keys[k]),
            decreases out.len() - pos,
        {
            pos += 1;
        }
        out.insert(pos, item);
        out_names.insert(pos, name);
        proof {
            p = before.insert(pos as int, k);
            assert forall|i: int, j: int| 0 <= i < j < p.len() implies comes_first(
                keys,
                #[trigger] p[i],
                #[trigger] p[j],
            ) by {
                if i == pos {
                    // the new element against one that is listed later
                    let c = before[j - 1];
                    let b = before[pos as int];
                    if j - 1 > pos {
                        assert(comes_first(keys, b, c));
                        lemma_key_lt_asymmetric(keys[b], keys[c]);
                        if key_lt(keys[c], keys[k]) {
                            lemma_key_lt_between(keys[c], keys[b], keys[k]);
                        }
                    }
                } else if j == pos {
                    assert(p[i] == before[i]);
                } else {
                    let from_i = if i < pos { i } else { i - 1 };
                    let from_j = if j < pos { j } else { j - 1 };
                    assert(p[i] == before[from_i] && p[j] == before[from_j]);
                }
            }
        }
    }
    proof {
        assert(out@ =~= rearranged(total, p));
        assert(stable_order(p, keys));
    }
    out
}

/// Sorts `items` by kind, then by name without regard to case, keeping
/// items with level keys in the order in which they came.
pub fn sort_devices(items: Vec<DeviceItem>) -> (out: Vec<DeviceItem>)
    ensures
        exists|p: Seq<int>| #[trigger]
            stable_order(p, device_keys(items.deep_view())) && out@ == rearranged(items@, p),
        stable_sorted(out.deep_view(), items.deep_view()),
        in_listing_order(out.deep_view()),
{
    let ghost before = items@;
    let ghost entries = items.deep_view();
    let mut keyed: Vec<Keyed> = Vec::new();
    for item in it: items
        invariant
            it.seq() == before,
            keyed.len() == it.index(),
            forall|k: int|
                0 <= k < keyed.len() ==> (#[trigger] keyed[k]).item == before[k] && keyed[k].name@
                    == lowercase(before[k].key.name@),
    {
        let name = folded(item.key.name.as_str());
        keyed.push(Keyed { name, item });
    }
    assert(sort_keys(keyed@) =~= device_keys(entries));
    assert(items_of(keyed@) =~= before);
    let out = sort_keyed(keyed);
    proof {
        let p = choose|p: Seq<int>| #[trigger]
            stable_order(p, device_keys(entries)) && out@ == rearranged(before, p);
        assert(out.deep_view() =~= rearranged(entries, p));
        lemma_stable_sorted_in_order(out.deep_view(), entries);
    }
    out
}

} // verus!
