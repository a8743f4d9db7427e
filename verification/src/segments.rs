//! Reassembly of the fragmented vendor metadata blob.
//!
//! The camera splits its metadata blob over several application segments.
//! Each carrying segment starts with a 5-byte signature, one filler byte,
//! a zero-based fragment index and the last fragment index; the rest is
//! fragment data.  Reassembly places every fragment into its declared slot
//! and concatenates the slots in index order, so the result is independent
//! of the order in which the container stores the segments.

use vstd::prelude::*;
use vstd::seq_lib::*;

use crate::error::FlirError;

verus! {

/// The 5-byte fragment signature: "FLIR" followed by a NUL byte.
pub open spec fn flir_signature() -> Seq<u8> {
    seq![0x46u8, 0x4Cu8, 0x49u8, 0x52u8, 0x00u8]
}

/// A segment payload carrying one fragment of the metadata blob: the
/// signature, a filler byte, the fragment index (byte 6), the last
/// fragment index (byte 7), and the fragment's data.
pub open spec fn is_flir_fragment(s: Seq<u8>) -> bool {
    s.len() >= 8 && s.subrange(0, 5) == flir_signature()
}

/// Zero-based slot index declared by a fragment.
pub open spec fn fragment_index(s: Seq<u8>) -> int {
    s[6] as int
}

/// Total fragment count declared by a fragment (byte 7 holds the last index).
pub open spec fn fragment_count(s: Seq<u8>) -> int {
    s[7] + 1
}

/// Data bytes of a fragment: everything after the 8-byte fragment header.
pub open spec fn fragment_payload(s: Seq<u8>) -> Seq<u8> {
    s.subrange(8, s.len() as int)
}

/// The views of a list of segment payloads.
pub open spec fn seg_views(segments: Seq<Vec<u8>>) -> Seq<Seq<u8>> {
    Seq::new(segments.len(), |i: int| segments[i]@)
}

/// At least one segment carries the fragment signature.
pub open spec fn has_fragment(segs: Seq<Seq<u8>>) -> bool {
    exists|j: int| 0 <= j < segs.len() && is_flir_fragment(segs[j])
}

/// Every fragment declares the same total fragment count.
pub open spec fn counts_agree(segs: Seq<Seq<u8>>) -> bool {
    forall|j: int, k: int|
        0 <= j < segs.len() && 0 <= k < segs.len() && is_flir_fragment(segs[j])
            && is_flir_fragment(segs[k]) ==> fragment_count(segs[j]) == fragment_count(segs[k])
}

/// Every fragment's index lies below its own declared count.
pub open spec fn indices_in_bounds(segs: Seq<Seq<u8>>) -> bool {
    forall|j: int|
        0 <= j < segs.len() && is_flir_fragment(segs[j]) ==> fragment_index(segs[j])
            < fragment_count(segs[j])
}

/// No two fragments declare the same index.
pub open spec fn no_duplicate_indices(segs: Seq<Seq<u8>>) -> bool {
    forall|j: int, k: int|
        0 <= j < k < segs.len() && is_flir_fragment(segs[j]) && is_flir_fragment(segs[k])
            ==> fragment_index(segs[j]) != fragment_index(segs[k])
}

/// The fragment count declared by the fragments (meaningful when they agree).
pub open spec fn declared_count(segs: Seq<Seq<u8>>) -> int {
    fragment_count(segs[choose|j: int| 0 <= j < segs.len() && is_flir_fragment(segs[j])])
}

/// Some fragment declares slot index `i`.
pub open spec fn index_present(segs: Seq<Seq<u8>>, i: int) -> bool {
    exists|j: int| 0 <= j < segs.len() && is_flir_fragment(segs[j]) && fragment_index(segs[j]) == i
}

/// Every slot index below the declared count is declared by some fragment.
pub open spec fn all_indices_present(segs: Seq<Seq<u8>>) -> bool {
    forall|i: int| 0 <= i < declared_count(segs) ==> #[trigger] index_present(segs, i)
}

/// The segments form one complete, consistent fragment set.
pub open spec fn reassembly_valid(segs: Seq<Seq<u8>>) -> bool {
    &&& has_fragment(segs)
    &&& counts_agree(segs)
    &&& indices_in_bounds(segs)
    &&& no_duplicate_indices(segs)
    &&& all_indices_present(segs)
}

/// Position of the fragment declaring slot index `i` (unique when the set
/// has no duplicate indices).
pub open spec fn fragment_position(segs: Seq<Seq<u8>>, i: int) -> int {
    choose|j: int|
        0 <= j < segs.len() && is_flir_fragment(segs[j]) && fragment_index(segs[j]) == i
}

/// The fragment payloads in slot order.
pub open spec fn slot_payloads(segs: Seq<Seq<u8>>) -> Seq<Seq<u8>> {
    Seq::new(
        declared_count(segs) as nat,
        |i: int| fragment_payload(segs[fragment_position(segs, i)]),
    )
}

/// The reassembled metadata blob: the payloads concatenated in slot order.
pub open spec fn reassembled(segs: Seq<Seq<u8>>) -> Seq<u8> {
    slot_payloads(segs).flatten()
}

/// The input defect that justifies each reassembly failure kind.
pub open spec fn reassembly_error_witnessed(segs: Seq<Seq<u8>>, e: FlirError) -> bool {
    match e {
        FlirError::SegmentsNotFound => !has_fragment(segs),
        FlirError::InconsistentFragmentCount { expected, found } => {
            &&& expected != found
            &&& exists|j: int|
                0 <= j < segs.len() && is_flir_fragment(segs[j]) && fragment_count(segs[j])
                    == expected
            &&& exists|j: int|
                0 <= j < segs.len() && is_flir_fragment(segs[j]) && fragment_count(segs[j])
                    == found
        },
        FlirError::FragmentIndexOutOfBounds { index, count } => {
            &&& index >= count
            &&& exists|j: int|
                0 <= j < segs.len() && is_flir_fragment(segs[j]) && fragment_index(segs[j])
                    == index
            &&& exists|j: int|
                0 <= j < segs.len() && is_flir_fragment(segs[j]) && fragment_count(segs[j])
                    == count
        },
        FlirError::DuplicateFragment { index } => {
            exists|j: int, k: int|
                0 <= j < k < segs.len() && is_flir_fragment(segs[j]) && is_flir_fragment(segs[k])
                    && fragment_index(segs[j]) == index && fragment_index(segs[k]) == index
        },
        FlirError::IncompleteFragmentSet { expected, found } => {
            &&& has_fragment(segs)
            &&& counts_agree(segs)
            &&& indices_in_bounds(segs)
            &&& no_duplicate_indices(segs)
            &&& !all_indices_present(segs)
            &&& expected == declared_count(segs)
            &&& found < expected
        },
        _ => false,
    }
}

/// Fragments seen strictly before position `j` all declare count `nslots`
/// and an index below it.
spec fn prefix_fragments_ok(gs: Seq<Seq<u8>>, j: int, nslots: int) -> bool {
    forall|k: int|
        0 <= k < j && is_flir_fragment(gs[k]) ==> fragment_count(gs[k]) == nslots
            && fragment_index(gs[k]) < nslots
}

/// No two fragments before position `j` share an index.
spec fn prefix_no_duplicates(gs: Seq<Seq<u8>>, j: int) -> bool {
    forall|k: int, l: int|
        0 <= k < l < j && is_flir_fragment(gs[k]) && is_flir_fragment(gs[l])
            ==> fragment_index(gs[k]) != fragment_index(gs[l])
}

/// Some fragment occurs strictly before position `j`.
spec fn prefix_has_fragment(gs: Seq<Seq<u8>>, j: int) -> bool {
    exists|k: int| 0 <= k < j && is_flir_fragment(gs[k])
}

/// A slot holds exactly the payload of the prefix fragment declaring its
/// index, or nothing if no such fragment has occurred yet.
spec fn slot_matches(gs: Seq<Seq<u8>>, j: int, i: int, slot: Option<Vec<u8>>) -> bool {
    match slot {
        Some(p) => exists|k: int|
            0 <= k < j && is_flir_fragment(gs[k]) && fragment_index(gs[k]) == i && p@
                == fragment_payload(gs[k]),
        None => forall|k: int|
            0 <= k < j && is_flir_fragment(gs[k]) ==> fragment_index(gs[k]) != i,
    }
}

/// The position declaring slot `i` is unique in a duplicate-free set.
proof fn lemma_unique_position(segs: Seq<Seq<u8>>, k: int, i: int)
    requires
        no_duplicate_indices(segs),
        0 <= k < segs.len(),
        is_flir_fragment(segs[k]),
        fragment_index(segs[k]) == i,
    ensures
        fragment_position(segs, i) == k,
{
    assert(0 <= k < segs.len() && is_flir_fragment(segs[k]) && fragment_index(segs[k]) == i);
    let j0 = fragment_position(segs, i);
    assert(0 <= j0 < segs.len() && is_flir_fragment(segs[j0]) && fragment_index(segs[j0]) == i);
    if j0 != k {
        if j0 < k {
            assert(fragment_index(segs[j0]) != fragment_index(segs[k]));
        } else {
            assert(fragment_index(segs[k]) != fragment_index(segs[j0]));
        }
    }
}

/// Whether a segment payload carries the fragment signature.
fn fragment_check(s: &Vec<u8>) -> (b: bool)
    ensures
        b == is_flir_fragment(s@),
{
    if s.len() >= 8 {
        let ok = s[0] == 0x46 && s[1] == 0x4C && s[2] == 0x49 && s[3] == 0x52 && s[4] == 0x00;
        proof {
            if ok {
                assert(s@.subrange(0, 5) =~= flir_signature());
            } else {
                if s@.subrange(0, 5) == flir_signature() {
                    assert(s@[0] == flir_signature()[0]);
                    assert(s@[1] == flir_signature()[1]);
                    assert(s@[2] == flir_signature()[2]);
                    assert(s@[3] == flir_signature()[3]);
                    assert(s@[4] == flir_signature()[4]);
                }
            }
        }
        ok
    } else {
        false
    }
}

/// Copy a fragment's data bytes, stripping the 8-byte fragment header.
fn copy_payload(s: &Vec<u8>) -> (p: Vec<u8>)
    requires
        s@.len() >= 8,
    ensures
        p@ == fragment_payload(s@),
{
    let n = s.len();
    let mut p: Vec<u8> = Vec::new();
    let mut b: usize = 8;
    while b < n
        invariant
            8 <= b <= n,
            n == s@.len(),
            p@ == s@.subrange(8, b as int),
        decreases n - b,
    {
        p.push(s[b]);
        proof {
            assert(p@ =~= s@.subrange(8, b + 1 as int));
        }
        b += 1;
    }
    proof {
        assert(p@ =~= fragment_payload(s@));
    }
    p
}

/// Reassemble the metadata blob from a container's application segment
/// payloads.
///
/// Segments without the fragment signature are skipped: they belong to
/// unrelated metadata.  The signed segments must form one complete,
/// consistent fragment set; the result concatenates their payloads in
/// slot-index order.  When a per-fragment defect exists, the error reports
/// the first one encountered in scan order, checking each fragment's
/// declared count, then its index bound, then duplication.
pub fn collect_flir_segment_data(segments: &Vec<Vec<u8>>) -> (r: Result<Vec<u8>, FlirError>)
    ensures
        match r {
            Ok(data) => reassembly_valid(seg_views(segments@)) && data@ == reassembled(
                seg_views(segments@),
            ),
            Err(e) => !reassembly_valid(seg_views(segments@)) && reassembly_error_witnessed(
                seg_views(segments@),
                e,
            ),
        },
{
    let ghost gs = seg_views(segments@);
    let n_segs = segments.len();
    let mut slots: Vec<Option<Vec<u8>>> = Vec::new();
    let mut j: usize = 0;

    while j < n_segs
        invariant
            gs == seg_views(segments@),
            n_segs == gs.len(),
            j <= n_segs,
            slots@.len() == 0 ==> !prefix_has_fragment(gs, j as int),
            slots@.len() > 0 ==> prefix_has_fragment(gs, j as int),
            prefix_fragments_ok(gs, j as int, slots@.len() as int),
            prefix_no_duplicates(gs, j as int),
            forall|i: int| 0 <= i < slots@.len() ==> slot_matches(gs, j as int, i, #[trigger] slots@[i]),
        decreases n_segs - j,
    {
        let s = &segments[j];
        proof {
            assert(gs[j as int] == s@);
        }
        if fragment_check(s) {
            let idx = s[6] as usize;
            let cnt = s[7] as usize + 1;
            if slots.len() == 0 {
                // First fragment: allocate the slot table it declares.
                let mut f: usize = 0;
                while f < cnt
                    invariant
                        f <= cnt,
                        slots@.len() == f,
                        forall|i: int| 0 <= i < f ==> #[trigger] slots@[i] is None,
                    decreases cnt - f,
                {
                    slots.push(None);
                    f += 1;
                }
                proof {
                    assert forall|i: int| 0 <= i < slots@.len() implies slot_matches(
                        gs,
                        j as int,
                        i,
                        #[trigger] slots@[i],
                    ) by {
                        assert(slots@[i] is None);
                        assert(forall|k: int|
                            0 <= k < j && is_flir_fragment(gs[k]) ==> fragment_index(gs[k]) != i);
                    }
                }
            } else if slots.len() != cnt {
                proof {
                    let k = choose|k: int| 0 <= k < j && is_flir_fragment(gs[k]);
                    assert(fragment_count(gs[k]) == slots@.len());
                    assert(fragment_count(gs[j as int]) == cnt);
                    assert(!counts_agree(gs));
                }
                return Err(
                    FlirError::InconsistentFragmentCount { expected: slots.len(), found: cnt },
                );
            }
            if idx >= slots.len() {
                proof {
                    assert(fragment_count(gs[j as int]) == slots@.len());
                    assert(fragment_index(gs[j as int]) == idx);
                    assert(!indices_in_bounds(gs));
                }
                return Err(FlirError::FragmentIndexOutOfBounds { index: idx, count: slots.len() });
            }
            if slots[idx].is_some() {
                proof {
                    let k = choose|k: int|
                        0 <= k < j && is_flir_fragment(gs[k]) && fragment_index(gs[k]) == idx
                            && (slots@[idx as int]->Some_0)@ == fragment_payload(gs[k]);
                    assert(is_flir_fragment(gs[k]) && fragment_index(gs[k]) == idx);
                    assert(is_flir_fragment(gs[j as int]) && fragment_index(gs[j as int]) == idx);
                    assert(!no_duplicate_indices(gs));
                }
                return Err(FlirError::DuplicateFragment { index: idx });
            }
            let payload = copy_payload(s);
            slots[idx] = Some(payload);
            proof {
                assert forall|i: int| 0 <= i < slots@.len() implies slot_matches(
                    gs,
                    j + 1 as int,
                    i,
                    #[trigger] slots@[i],
                ) by {
                    if i == idx {
                        assert(is_flir_fragment(gs[j as int]) && fragment_index(gs[j as int]) == i
                            && (slots@[i]->Some_0)@ == fragment_payload(gs[j as int]));
                    } else {
                        assert(slot_matches(gs, j as int, i, slots@[i]));
                    }
                }
            }
        } else {
            proof {
                assert forall|i: int| 0 <= i < slots@.len() implies slot_matches(
                    gs,
                    j + 1 as int,
                    i,
                    #[trigger] slots@[i],
                ) by {
                    assert(slot_matches(gs, j as int, i, slots@[i]));
                }
            }
        }
        j += 1;
    }

    let count = slots.len();
    if count == 0 {
        proof {
            assert(!has_fragment(gs));
        }
        return Err(FlirError::SegmentsNotFound);
    }

    proof {
        assert(has_fragment(gs));
        assert forall|j2: int, k: int|
            0 <= j2 < gs.len() && 0 <= k < gs.len() && is_flir_fragment(gs[j2])
                && is_flir_fragment(gs[k]) implies fragment_count(gs[j2]) == fragment_count(
            gs[k],
        ) by {
            assert(fragment_count(gs[j2]) == count);
            assert(fragment_count(gs[k]) == count);
        }
        assert(counts_agree(gs));
        assert(indices_in_bounds(gs));
        assert(no_duplicate_indices(gs));
        let k0 = choose|k: int| 0 <= k < gs.len() && is_flir_fragment(gs[k]);
        assert(fragment_count(gs[k0]) == count);
        assert(declared_count(gs) == count);
    }

    // Verify that every slot was filled.
    let mut filled: usize = 0;
    let mut i: usize = 0;
    while i < count
        invariant
            count == slots@.len(),
            i <= count,
            filled <= i,
            (filled == i) <==> (forall|k: int| 0 <= k < i ==> #[trigger] slots@[k] is Some),
        decreases count - i,
    {
        if slots[i].is_some() {
            filled += 1;
        }
        i += 1;
    }
    if filled != count {
        proof {
            assert(!(forall|k: int| 0 <= k < count ==> #[trigger] slots@[k] is Some));
            let k = choose|k: int| !(0 <= k < count ==> #[trigger] slots@[k] is Some);
            assert(slots@[k] is None);
            assert(slot_matches(gs, gs.len() as int, k, slots@[k]));
            assert(!index_present(gs, k));
            assert(!all_indices_present(gs));
        }
        return Err(FlirError::IncompleteFragmentSet { expected: count, found: filled });
    }

    proof {
        assert forall|i2: int| 0 <= i2 < declared_count(gs) implies #[trigger] index_present(
            gs,
            i2,
        ) by {
            assert(slots@[i2] is Some);
            assert(slot_matches(gs, gs.len() as int, i2, slots@[i2]));
        }
        assert(all_indices_present(gs));
        assert(reassembly_valid(gs));
    }

    // Concatenate the slots in index order.
    let mut data: Vec<u8> = Vec::new();
    let mut i: usize = 0;
    while i < count
        invariant
            gs == seg_views(segments@),
            count == slots@.len(),
            count == declared_count(gs),
            i <= count,
            reassembly_valid(gs),
            forall|k: int| 0 <= k < count ==> #[trigger] slots@[k] is Some,
            forall|k: int|
                0 <= k < count ==> slot_matches(gs, gs.len() as int, k, #[trigger] slots@[k]),
            data@ == slot_payloads(gs).take(i as int).flatten(),
        decreases count - i,
    {
        let p = slots[i].as_ref().unwrap();
        let ghost data0 = data@;
        let m = p.len();
        let mut b: usize = 0;
        while b < m
            invariant
                b <= m,
                m == p@.len(),
                data@ == data0 + p@.subrange(0, b as int),
            decreases m - b,
        {
            data.push(p[b]);
            proof {
                assert(data@ =~= data0 + p@.subrange(0, b + 1 as int));
            }
            b += 1;
        }
        proof {
            assert(p@.subrange(0, m as int) =~= p@);
            assert(data@ == data0 + p@);
            let k = choose|k: int|
                0 <= k < gs.len() && is_flir_fragment(gs[k]) && fragment_index(gs[k]) == i as int
                    && p@ == fragment_payload(gs[k]);
            lemma_unique_position(gs, k, i as int);
            assert(p@ == slot_payloads(gs)[i as int]);
            let taken = slot_payloads(gs).take(i as int);
            assert(slot_payloads(gs).take(i + 1 as int) =~= taken.push(p@));
            broadcast use Seq::lemma_flatten_push;
            assert(taken.push(p@).flatten() == taken.flatten() + p@);
            assert(data@ == slot_payloads(gs).take(i + 1 as int).flatten());
        }
        i += 1;
    }
    proof {
        assert(slot_payloads(gs).take(count as int) =~= slot_payloads(gs));
        assert(data@ == reassembled(gs));
    }
    Ok(data)
}

/// A value occurring at two positions of a sequence is counted at least
/// twice in its multiset.
proof fn lemma_two_positions_give_count(segs: Seq<Seq<u8>>, j: int, k: int)
    requires
        0 <= j < k < segs.len(),
        segs[j] == segs[k],
    ensures
        segs.to_multiset().count(segs[j]) >= 2,
{
    broadcast use group_to_multiset_ensures;
    broadcast use vstd::multiset::group_multiset_axioms;

    let a = segs.subrange(0, k);
    let b = segs.subrange(k, segs.len() as int);
    assert(segs =~= a + b);
    lemma_multiset_commutative(a, b);
    assert(a[j] == segs[j]);
    assert(a.contains(segs[j]));
    assert(a.to_multiset().count(segs[j]) > 0);
    assert(b[0] == segs[k]);
    assert(b.contains(segs[j]));
    assert(b.to_multiset().count(segs[j]) > 0);
    assert(segs.to_multiset().count(segs[j]) == a.to_multiset().count(segs[j])
        + b.to_multiset().count(segs[j]));
}

/// A value counted at least twice in a sequence's multiset occurs at two
/// positions.
proof fn lemma_count_gives_two_positions(segs: Seq<Seq<u8>>, x: Seq<u8>)
    requires
        segs.to_multiset().count(x) >= 2,
    ensures
        exists|j: int, k: int| 0 <= j < k < segs.len() && segs[j] == x && segs[k] == x,
    decreases segs.len(),
{
    broadcast use group_to_multiset_ensures;
    broadcast use vstd::multiset::group_multiset_axioms;

    assert(segs.to_multiset().count(x) > 0);
    assert(segs.contains(x));
    assert(segs.len() > 0);
    let last = segs.last();
    let rest = segs.drop_last();
    assert(rest.push(last) =~= segs);
    assert(rest.push(last).to_multiset() =~= rest.to_multiset().insert(last));
    if last == x {
        assert(segs.to_multiset().count(x) == rest.to_multiset().count(x) + 1);
        assert(rest.to_multiset().count(x) >= 1);
        assert(rest.contains(x));
        let j = choose|j: int| 0 <= j < rest.len() && rest[j] == x;
        assert(segs[j] == x);
        assert(segs[segs.len() - 1] == x);
        assert(0 <= j < segs.len() - 1 < segs.len());
    } else {
        assert(segs.to_multiset().count(x) == rest.to_multiset().count(x));
        lemma_count_gives_two_positions(rest, x);
        let (j, k) = choose|j: int, k: int|
            0 <= j < k < rest.len() && rest[j] == x && rest[k] == x;
        assert(segs[j] == x && segs[k] == x);
    }
}

/// Reassembly is order-independent: a permutation of a valid fragment set
/// is itself valid, declares the same slot count, and reassembles to the
/// byte-identical blob.
pub proof fn lemma_reassembly_order_independent(segs1: Seq<Seq<u8>>, segs2: Seq<Seq<u8>>)
    requires
        segs1.to_multiset() == segs2.to_multiset(),
        reassembly_valid(segs1),
    ensures
        reassembly_valid(segs2),
        declared_count(segs2) == declared_count(segs1),
        reassembled(segs2) == reassembled(segs1),
{
    broadcast use group_to_multiset_ensures;
    broadcast use vstd::multiset::group_multiset_axioms;

    assert forall|v: Seq<u8>| #[trigger] segs1.contains(v) implies segs2.contains(v) by {
        assert(segs1.to_multiset().count(v) > 0);
        assert(segs2.to_multiset().count(v) > 0);
    }
    assert forall|v: Seq<u8>| #[trigger] segs2.contains(v) implies segs1.contains(v) by {
        assert(segs2.to_multiset().count(v) > 0);
        assert(segs1.to_multiset().count(v) > 0);
    }

    // The fragment set itself carries over.
    let j1 = choose|j: int| 0 <= j < segs1.len() && is_flir_fragment(segs1[j]);
    assert(segs1.contains(segs1[j1]));
    assert(segs2.contains(segs1[j1]));
    let j2w = choose|j: int| 0 <= j < segs2.len() && segs2[j] == segs1[j1];
    assert(is_flir_fragment(segs2[j2w]));
    assert(has_fragment(segs2));

    assert forall|j: int, k: int|
        0 <= j < segs2.len() && 0 <= k < segs2.len() && is_flir_fragment(segs2[j])
            && is_flir_fragment(segs2[k]) implies fragment_count(segs2[j]) == fragment_count(
        segs2[k],
    ) by {
        assert(segs2.contains(segs2[j]));
        assert(segs2.contains(segs2[k]));
        assert(segs1.contains(segs2[j]));
        assert(segs1.contains(segs2[k]));
        let p = choose|p: int| 0 <= p < segs1.len() && segs1[p] == segs2[j];
        let q = choose|q: int| 0 <= q < segs1.len() && segs1[q] == segs2[k];
        assert(fragment_count(segs1[p]) == fragment_count(segs1[q]));
    }
    assert(counts_agree(segs2));

    assert forall|j: int|
        0 <= j < segs2.len() && is_flir_fragment(segs2[j]) implies fragment_index(segs2[j])
        < fragment_count(segs2[j]) by {
        assert(segs2.contains(segs2[j]));
        assert(segs1.contains(segs2[j]));
        let p = choose|p: int| 0 <= p < segs1.len() && segs1[p] == segs2[j];
        assert(fragment_index(segs1[p]) < fragment_count(segs1[p]));
    }
    assert(indices_in_bounds(segs2));

    assert forall|j: int, k: int|
        0 <= j < k < segs2.len() && is_flir_fragment(segs2[j]) && is_flir_fragment(segs2[k])
        implies fragment_index(segs2[j]) != fragment_index(segs2[k]) by {
        if fragment_index(segs2[j]) == fragment_index(segs2[k]) {
            if segs2[j] == segs2[k] {
                lemma_two_positions_give_count(segs2, j, k);
                assert(segs1.to_multiset().count(segs2[j]) >= 2);
                lemma_count_gives_two_positions(segs1, segs2[j]);
                let (p, q) = choose|p: int, q: int|
                    0 <= p < q < segs1.len() && segs1[p] == segs2[j] && segs1[q] == segs2[j];
                assert(fragment_index(segs1[p]) != fragment_index(segs1[q]));
                assert(false);
            } else {
                assert(segs2.contains(segs2[j]));
                assert(segs2.contains(segs2[k]));
                assert(segs1.contains(segs2[j]));
                assert(segs1.contains(segs2[k]));
                let p = choose|p: int| 0 <= p < segs1.len() && segs1[p] == segs2[j];
                let q = choose|q: int| 0 <= q < segs1.len() && segs1[q] == segs2[k];
                assert(p != q);
                if p < q {
                    assert(fragment_index(segs1[p]) != fragment_index(segs1[q]));
                } else {
                    assert(fragment_index(segs1[q]) != fragment_index(segs1[p]));
                }
                assert(false);
            }
        }
    }
    assert(no_duplicate_indices(segs2));

    // Both sets declare the same slot count.
    let c2 = choose|j: int| 0 <= j < segs2.len() && is_flir_fragment(segs2[j]);
    assert(segs2.contains(segs2[c2]));
    assert(segs1.contains(segs2[c2]));
    let cp = choose|p: int| 0 <= p < segs1.len() && segs1[p] == segs2[c2];
    assert(fragment_count(segs1[cp]) == fragment_count(segs1[j1]));
    assert(declared_count(segs2) == declared_count(segs1));

    assert forall|i: int| 0 <= i < declared_count(segs2) implies #[trigger] index_present(
        segs2,
        i,
    ) by {
        assert(index_present(segs1, i));
        let p = choose|p: int|
            0 <= p < segs1.len() && is_flir_fragment(segs1[p]) && fragment_index(segs1[p]) == i;
        assert(segs1.contains(segs1[p]));
        assert(segs2.contains(segs1[p]));
        let q = choose|q: int| 0 <= q < segs2.len() && segs2[q] == segs1[p];
        assert(0 <= q < segs2.len() && is_flir_fragment(segs2[q]) && fragment_index(segs2[q])
            == i);
    }
    assert(all_indices_present(segs2));
    assert(reassembly_valid(segs2));

    // Slot by slot, the payloads coincide.
    assert forall|i: int| 0 <= i < declared_count(segs2) implies slot_payloads(segs2)[i]
        == slot_payloads(segs1)[i] by {
        assert(index_present(segs2, i));
        let p2 = fragment_position(segs2, i);
        assert(0 <= p2 < segs2.len() && is_flir_fragment(segs2[p2]) && fragment_index(segs2[p2])
            == i);
        assert(segs2.contains(segs2[p2]));
        assert(segs1.contains(segs2[p2]));
        let q = choose|q: int| 0 <= q < segs1.len() && segs1[q] == segs2[p2];
        lemma_unique_position(segs1, q, i);
        assert(fragment_payload(segs1[fragment_position(segs1, i)]) == fragment_payload(
            segs2[p2],
        ));
    }
    assert(slot_payloads(segs2) =~= slot_payloads(segs1));
    assert(reassembled(segs2) == reassembled(segs1));
}

/// A fragment set with a duplicate index, an out-of-range index, an
/// inconsistent declared count, or a missing index is never assembled:
/// `collect_flir_segment_data` returns `Ok` only on inputs satisfying
/// `reassembly_valid`, and no such set does.
pub proof fn lemma_defective_fragment_sets_invalid(segs: Seq<Seq<u8>>)
    ensures
        !no_duplicate_indices(segs) ==> !reassembly_valid(segs),
        !indices_in_bounds(segs) ==> !reassembly_valid(segs),
        !counts_agree(segs) ==> !reassembly_valid(segs),
        !all_indices_present(segs) ==> !reassembly_valid(segs),
{
}

} // verus!
