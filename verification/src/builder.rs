//! The working color set: deduplication of the merged backend outputs,
//! augmentation up to the minimum size the slot mapper needs, and the
//! luma-ascending ordering.

use vstd::prelude::*;

use crate::color::{adjust_color_spec, adjust_rgb_wide, luma, luma_value};

verus! {

/// The least number of elements the working set must hold before slot
/// mapping: the largest fixed slot index is 21.
pub const MIN_WORKING_SET: usize = 22;

// ---------------------------------------------------------------------------
// Deduplication
// ---------------------------------------------------------------------------
/// Exact-equality deduplication keeping the first occurrence of each color.
pub open spec fn dedup_spec(s: Seq<(u8, u8, u8)>) -> Seq<(u8, u8, u8)>
    decreases s.len(),
{
    if s.len() == 0 {
        Seq::empty()
    } else {
        let rest = dedup_spec(s.drop_last());
        if rest.contains(s.last()) {
            rest
        } else {
            rest.push(s.last())
        }
    }
}

/// After deduplication no two elements of the working set are equal.
pub proof fn lemma_dedup_no_duplicates(s: Seq<(u8, u8, u8)>)
    ensures
        forall|i: int, j: int|
            0 <= i < j < dedup_spec(s).len() ==> dedup_spec(s)[i] != dedup_spec(s)[j],
    decreases s.len(),
{
    if s.len() > 0 {
        lemma_dedup_no_duplicates(s.drop_last());
        let rest = dedup_spec(s.drop_last());
        if !rest.contains(s.last()) {
            assert(forall|i: int|
                0 <= i < rest.len() ==> rest.push(s.last())[i] == rest[i]);
        }
    }
}

/// Deduplication keeps exactly the colors of its input, no more, no fewer.
pub proof fn lemma_dedup_same_elements(s: Seq<(u8, u8, u8)>)
    ensures
        forall|c: (u8, u8, u8)| #[trigger] dedup_spec(s).contains(c) <==> s.contains(c),
    decreases s.len(),
{
    if s.len() > 0 {
        lemma_dedup_same_elements(s.drop_last());
        let rest = dedup_spec(s.drop_last());
        assert forall|c: (u8, u8, u8)| #[trigger] s.contains(c) implies dedup_spec(s).contains(c) by {
            if c == s.last() {
                if !rest.contains(c) {
                    assert(dedup_spec(s) == rest.push(c));
                    assert(dedup_spec(s)[rest.len() as int] == c);
                }
            } else {
                let i = choose|i: int| 0 <= i < s.len() && s[i] == c;
                assert(i < s.len() - 1);
                assert(s.drop_last()[i] == c);
                assert(s.drop_last().contains(c));
                assert(dedup_spec(s.drop_last()).contains(c));
                assert(rest.contains(c));
                if !rest.contains(s.last()) {
                    let j = choose|j: int| 0 <= j < rest.len() && rest[j] == c;
                    assert(rest.push(s.last())[j] == c);
                }
            }
        }
        assert forall|c: (u8, u8, u8)| #[trigger] dedup_spec(s).contains(c) implies s.contains(c) by {
            if rest.contains(c) {
                let i = choose|i: int| 0 <= i < s.drop_last().len() && s.drop_last()[i] == c;
                assert(s[i] == c);
            } else {
                assert(c == s.last());
                assert(s[s.len() - 1] == c);
            }
        }
    }
}

fn color_in(v: &Vec<(u8, u8, u8)>, c: (u8, u8, u8)) -> (res: bool)
    ensures
        res == v@.contains(c),
{
    let mut i: usize = 0;
    while i < v.len()
        invariant
            i <= v@.len(),
            forall|j: int| 0 <= j < i ==> v@[j] != c,
        decreases v@.len() - i,
    {
        let e = v[i];
        if e.0 == c.0 && e.1 == c.1 && e.2 == c.2 {
            assert(v@[i as int] == c);
            return true;
        }
        i += 1;
    }
    false
}

/// Removes exact duplicates from the working color set, keeping the first
/// occurrence of each color in its original position.
pub fn remove_duplicates(colors: Vec<(u8, u8, u8)>) -> (res: Vec<(u8, u8, u8)>)
    ensures
        res@ == dedup_spec(colors@),
{
    let mut out: Vec<(u8, u8, u8)> = Vec::new();
    let mut i: usize = 0;
    while i < colors.len()
        invariant
            i <= colors@.len(),
            out@ == dedup_spec(colors@.take(i as int)),
        decreases colors@.len() - i,
    {
        let c = colors[i];
        proof {
            assert(colors@.take(i + 1).drop_last() =~= colors@.take(i as int));
            assert(colors@.take(i + 1).last() == colors@[i as int]);
        }
        if !color_in(&out, c) {
            out.push(c);
        }
        i += 1;
    }
    proof {
        assert(colors@.take(colors@.len() as int) =~= colors@);
    }
    out
}

// ---------------------------------------------------------------------------
// Augmentation
// ---------------------------------------------------------------------------
/// Augmentation step `k`: while the set holds fewer than the minimum, derive
/// a brightness-shifted variant of an existing element (cycling through the
/// set by index) with offset `10 * (k + 1)` and a fixed 50% saturation
/// multiplier, and append it.
pub open spec fn augment_spec(s: Seq<(u8, u8, u8)>, k: nat) -> Seq<(u8, u8, u8)>
    decreases 22 - s.len(),
{
    if s.len() == 0 || s.len() >= 22 {
        s
    } else {
        augment_spec(
            s.push(adjust_color_spec(s[k as int % s.len() as int], 10 * (k + 1) as int, 50)),
            k + 1,
        )
    }
}

/// Augmentation of a nonempty set always terminates with at least the
/// minimum working-set size, growing the set by exactly one per step and
/// keeping the original elements as a prefix.
pub proof fn lemma_augment_reaches_minimum(s: Seq<(u8, u8, u8)>, k: nat)
    requires
        s.len() >= 1,
    ensures
        augment_spec(s, k).len() == if s.len() >= 22 {
            s.len() as int
        } else {
            22
        },
        s.is_prefix_of(augment_spec(s, k)),
    decreases 22 - s.len(),
{
    if s.len() < 22 {
        let s2 = s.push(adjust_color_spec(s[k as int % s.len() as int], 10 * (k + 1) as int, 50));
        lemma_augment_reaches_minimum(s2, k + 1);
        assert(s.is_prefix_of(s2));
        assert(s2.is_prefix_of(augment_spec(s2, k + 1)));
        assert(s =~= augment_spec(s, k).take(s.len() as int));
    }
}

/// Grows the working set to the minimum size by appending deterministic
/// brightness-shifted variants of existing elements.
pub fn augment_colors(colors: &mut Vec<(u8, u8, u8)>)
    requires
        old(colors)@.len() >= 1,
    ensures
        final(colors)@ == augment_spec(old(colors)@, 0),
        final(colors)@.len() >= MIN_WORKING_SET,
{
    proof {
        lemma_augment_reaches_minimum(old(colors)@, 0);
    }
    let ghost orig = colors@;
    let mut k: usize = 0;
    while colors.len() < MIN_WORKING_SET
        invariant
            colors@.len() >= 1,
            colors@.len() == orig.len() + k,
            augment_spec(orig, 0) == augment_spec(colors@, k as nat),
        decreases 22 - colors@.len(),
    {
        let idx: usize = k % colors.len();
        let c = colors[idx];
        let off: i16 = (10 * (k + 1)) as i16;
        let nc = adjust_rgb_wide(c.0, c.1, c.2, off, 50);
        colors.push(nc);
        k += 1;
    }
    proof {
        lemma_augment_reaches_minimum(orig, 0);
    }
}

// ---------------------------------------------------------------------------
// Luma ordering
// ---------------------------------------------------------------------------
/// Ascending by perceptual luma.
pub open spec fn sorted_by_luma(s: Seq<(u8, u8, u8)>) -> bool {
    forall|i: int, j: int| 0 <= i <= j < s.len() ==> luma(s[i]) <= luma(s[j])
}

/// Stable insertion of `x` into `s`, after every element whose luma does not
/// exceed `x`'s.
pub open spec fn insert_by_luma(s: Seq<(u8, u8, u8)>, x: (u8, u8, u8)) -> Seq<(u8, u8, u8)>
    decreases s.len(),
{
    if s.len() == 0 {
        seq![x]
    } else if luma(s.last()) <= luma(x) {
        s.push(x)
    } else {
        insert_by_luma(s.drop_last(), x).push(s.last())
    }
}

/// Stable insertion sort by ascending luma.
pub open spec fn sort_by_luma_spec(s: Seq<(u8, u8, u8)>) -> Seq<(u8, u8, u8)>
    decreases s.len(),
{
    if s.len() == 0 {
        Seq::empty()
    } else {
        insert_by_luma(sort_by_luma_spec(s.drop_last()), s.last())
    }
}

proof fn lemma_insert_by_luma_properties(s: Seq<(u8, u8, u8)>, x: (u8, u8, u8))
    requires
        sorted_by_luma(s),
    ensures
        sorted_by_luma(insert_by_luma(s, x)),
        insert_by_luma(s, x).to_multiset() =~= s.to_multiset().insert(x),
        insert_by_luma(s, x).len() == s.len() + 1,
    decreases s.len(),
{
    broadcast use vstd::seq_lib::group_to_multiset_ensures;

    if s.len() == 0 {
        assert(seq![x] =~= Seq::empty().push(x));
    } else if luma(s.last()) <= luma(x) {
    } else {
        let butlast = s.drop_last();
        assert(sorted_by_luma(butlast)) by {
            assert(forall|i: int| 0 <= i < butlast.len() ==> butlast[i] == s[i]);
        }
        lemma_insert_by_luma_properties(butlast, x);
        let inner = insert_by_luma(butlast, x);
        assert forall|i: int, j: int|
            0 <= i <= j < inner.push(s.last()).len() implies luma(inner.push(s.last())[i]) <= luma(
            inner.push(s.last())[j],
        ) by {
            if j < inner.len() {
            } else {
                // the last element dominates: every element of `inner` is
                // either from `butlast` (below `s.last()` by sortedness) or
                // `x` itself (strictly below `s.last()` in this branch)
                if i < inner.len() {
                    assert(inner.to_multiset().contains(inner[i]));
                    if butlast.to_multiset().contains(inner[i]) {
                        let m = choose|m: int|
                            0 <= m < butlast.len() && butlast[m] == inner[i];
                        assert(luma(s[m]) <= luma(s.last()));
                    } else {
                        assert(inner[i] == x);
                    }
                }
            }
        }
        assert(butlast.push(s.last()) =~= s);
        assert(butlast.to_multiset().insert(s.last()) =~= s.to_multiset());
        assert(inner.push(s.last()).to_multiset() =~= inner.to_multiset().insert(s.last()));
        assert(inner.push(s.last()).to_multiset() =~= s.to_multiset().insert(x)) by {
            assert(inner.to_multiset() =~= butlast.to_multiset().insert(x));
            assert(butlast.to_multiset().insert(x).insert(s.last()) =~= butlast.to_multiset().insert(
                s.last(),
            ).insert(x));
        }
    }
}

/// The sorted working set is ascending by luma and is a permutation of its
/// input.
pub proof fn lemma_sort_by_luma_properties(s: Seq<(u8, u8, u8)>)
    ensures
        sorted_by_luma(sort_by_luma_spec(s)),
        sort_by_luma_spec(s).to_multiset() =~= s.to_multiset(),
        sort_by_luma_spec(s).len() == s.len(),
    decreases s.len(),
{
    broadcast use vstd::seq_lib::group_to_multiset_ensures;

    if s.len() > 0 {
        lemma_sort_by_luma_properties(s.drop_last());
        lemma_insert_by_luma_properties(sort_by_luma_spec(s.drop_last()), s.last());
        assert(s.drop_last().push(s.last()) =~= s);
        assert(s.drop_last().to_multiset().insert(s.last()) =~= s.to_multiset());
    }
}

/// Where stable insertion puts the new element: at the index `p` bounding
/// the prefix of elements whose luma does not exceed the new one's.
proof fn lemma_insert_by_luma_at(s: Seq<(u8, u8, u8)>, x: (u8, u8, u8), p: int)
    requires
        sorted_by_luma(s),
        0 <= p <= s.len(),
        forall|j: int| 0 <= j < p ==> luma(s[j]) <= luma(x),
        p < s.len() ==> luma(s[p]) > luma(x),
    ensures
        insert_by_luma(s, x) == s.insert(p, x),
    decreases s.len(),
{
    if s.len() == 0 {
        assert(seq![x] =~= s.insert(0, x));
    } else if luma(s.last()) <= luma(x) {
        assert(p == s.len()) by {
            if p < s.len() {
                assert(luma(s[p]) <= luma(s[s.len() - 1]));
            }
        }
        assert(s.push(x) =~= s.insert(p, x));
    } else {
        let butlast = s.drop_last();
        assert(sorted_by_luma(butlast)) by {
            assert(forall|i: int| 0 <= i < butlast.len() ==> butlast[i] == s[i]);
        }
        assert(p < s.len());
        lemma_insert_by_luma_at(butlast, x, p);
        assert(insert_by_luma(butlast, x).push(s.last()) =~= s.insert(p, x)) by {
            assert(butlast.insert(p, x).push(s.last()) =~= s.insert(p, x));
        }
    }
}

/// Sorts the working color set ascending by perceptual luma with a stable
/// insertion sort.
pub fn sort_by_luma(colors: &mut Vec<(u8, u8, u8)>)
    ensures
        final(colors)@ == sort_by_luma_spec(old(colors)@),
        sorted_by_luma(final(colors)@),
        final(colors)@.len() == old(colors)@.len(),
{
    proof {
        lemma_sort_by_luma_properties(old(colors)@);
    }
    let mut out: Vec<(u8, u8, u8)> = Vec::new();
    let mut i: usize = 0;
    while i < colors.len()
        invariant
            i <= colors@.len(),
            out@ == sort_by_luma_spec(colors@.take(i as int)),
            sorted_by_luma(out@),
        decreases colors@.len() - i,
    {
        let x = colors[i];
        let lx = luma_value(x);
        let mut p: usize = 0;
        while p < out.len() && luma_value(out[p]) <= lx
            invariant
                p <= out@.len(),
                lx == luma(x),
                forall|j: int| 0 <= j < p ==> luma(out@[j]) <= luma(x),
            decreases out@.len() - p,
        {
            p += 1;
        }
        proof {
            lemma_insert_by_luma_at(out@, x, p as int);
            lemma_insert_by_luma_properties(out@, x);
            assert(colors@.take(i + 1).drop_last() =~= colors@.take(i as int));
            assert(colors@.take(i + 1).last() == colors@[i as int]);
        }
        out.insert(p, x);
        i += 1;
    }
    proof {
        assert(colors@.take(colors@.len() as int) =~= colors@);
        lemma_sort_by_luma_properties(colors@);
    }
    *colors = out;
}

} // verus!
