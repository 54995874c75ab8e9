use vstd::prelude::*;

use crate::error::Error;

verus! {

/// The bitwise OR, at pixel offset `i`, of every buffer in `sources`
/// (`0` for an empty source list).
pub open spec fn or_fold(sources: Seq<Seq<u8>>, i: int) -> u8
    decreases sources.len(),
{
    if sources.len() == 0 {
        0u8
    } else {
        or_fold(sources.drop_last(), i) | sources.last()[i]
    }
}

/// The composite of `sources`: a buffer of length `size` whose byte at
/// offset `i` is the OR of the bytes at offset `i` of every source.
pub open spec fn combine_spec(sources: Seq<Seq<u8>>, size: nat) -> Seq<u8> {
    Seq::new(size, |i: int| or_fold(sources, i))
}

/// OR-ing a single buffer into the all-zero buffer reproduces it: the
/// all-zero buffer is the identity of the composition.
pub proof fn lemma_combine_identity(a: Seq<u8>)
    ensures
        combine_spec(seq![a], a.len()) == a,
{
    assert forall|i: int| 0 <= i < a.len() implies combine_spec(seq![a], a.len())[i] == a[i] by {
        let s = seq![a];
        let e = Seq::<Seq<u8>>::empty();
        assert(s.drop_last() =~= e);
        assert(or_fold(e, i) == 0u8);
        assert(or_fold(s, i) == (0u8 | a[i]));
        let x = a[i];
        assert(0u8 | x == x) by (bit_vector);
    }
    assert(combine_spec(seq![a], a.len()) =~= a);
}

/// Composition of two buffers does not depend on their order.
pub proof fn lemma_combine_commutative(a: Seq<u8>, b: Seq<u8>, size: nat)
    ensures
        combine_spec(seq![a, b], size) == combine_spec(seq![b, a], size),
{
    assert forall|i: int| 0 <= i < size implies combine_spec(seq![a, b], size)[i] == combine_spec(
        seq![b, a],
        size,
    )[i] by {
        let ab = seq![a, b];
        let ba = seq![b, a];
        let e = Seq::<Seq<u8>>::empty();
        assert(ab.drop_last() =~= seq![a]);
        assert(ba.drop_last() =~= seq![b]);
        assert(seq![a].drop_last() =~= e);
        assert(seq![b].drop_last() =~= e);
        assert(or_fold(e, i) == 0u8);
        assert(or_fold(seq![a], i) == (0u8 | a[i]));
        assert(or_fold(seq![b], i) == (0u8 | b[i]));
        assert(or_fold(ab, i) == ((0u8 | a[i]) | b[i]));
        assert(or_fold(ba, i) == ((0u8 | b[i]) | a[i]));
        let x = a[i];
        let y = b[i];
        assert((0u8 | x) | y == (0u8 | y) | x) by (bit_vector);
    }
    assert(combine_spec(seq![a, b], size) =~= combine_spec(seq![b, a], size));
}

/// The OR-fold over concatenated source lists is the OR of the folds of
/// the two halves.
pub proof fn lemma_or_fold_split(s1: Seq<Seq<u8>>, s2: Seq<Seq<u8>>, i: int)
    ensures
        or_fold(s1 + s2, i) == (or_fold(s1, i) | or_fold(s2, i)),
    decreases s2.len(),
{
    if s2.len() == 0 {
        assert(s1 + s2 =~= s1);
        let x = or_fold(s1, i);
        assert(x == (x | 0u8)) by (bit_vector);
    } else {
        assert((s1 + s2).drop_last() =~= s1 + s2.drop_last());
        assert((s1 + s2).last() == s2.last());
        lemma_or_fold_split(s1, s2.drop_last(), i);
        let x = or_fold(s1, i);
        let y = or_fold(s2.drop_last(), i);
        let z = s2.last()[i];
        assert(((x | y) | z) == (x | (y | z))) by (bit_vector);
    }
}

/// Composition is associative over a partition: splitting the sources
/// into two groups, combining each group, and then combining the two
/// group results gives the composite of all sources at once.
pub proof fn lemma_combine_partition(s1: Seq<Seq<u8>>, s2: Seq<Seq<u8>>, size: nat)
    ensures
        combine_spec(s1 + s2, size) == combine_spec(
            seq![combine_spec(s1, size), combine_spec(s2, size)],
            size,
        ),
{
    let grouped = seq![combine_spec(s1, size), combine_spec(s2, size)];
    assert forall|i: int| 0 <= i < size implies combine_spec(s1 + s2, size)[i] == combine_spec(
        grouped,
        size,
    )[i] by {
        lemma_or_fold_split(s1, s2, i);
        let e = Seq::<Seq<u8>>::empty();
        let g1 = combine_spec(s1, size);
        let g2 = combine_spec(s2, size);
        assert(grouped.drop_last() =~= seq![g1]);
        assert(seq![g1].drop_last() =~= e);
        assert(or_fold(e, i) == 0u8);
        assert(or_fold(seq![g1], i) == (0u8 | g1[i]));
        assert(or_fold(grouped, i) == ((0u8 | g1[i]) | g2[i]));
        assert(g1[i] == or_fold(s1, i));
        assert(g2[i] == or_fold(s2, i));
        let x = or_fold(s1, i);
        let y = or_fold(s2, i);
        assert((x | y) == ((0u8 | x) | y)) by (bit_vector);
    }
    assert(combine_spec(s1 + s2, size) =~= combine_spec(grouped, size));
}

/// The OR-fold over a flattened list of groups is the OR-fold over the
/// per-group composites, at every offset the composites cover.
proof fn lemma_or_fold_grouped(groups: Seq<Seq<Seq<u8>>>, size: nat, i: int)
    requires
        0 <= i < size,
    ensures
        or_fold(groups.flatten(), i) == or_fold(
            groups.map_values(|g: Seq<Seq<u8>>| combine_spec(g, size)),
            i,
        ),
    decreases groups.len(),
{
    let mapped = groups.map_values(|g: Seq<Seq<u8>>| combine_spec(g, size));
    if groups.len() == 0 {
        assert(groups.flatten() =~= Seq::<Seq<u8>>::empty());
        assert(mapped =~= Seq::<Seq<u8>>::empty());
    } else {
        let g0 = groups.first();
        let rest = groups.drop_first();
        let m0 = combine_spec(g0, size);
        let mrest = rest.map_values(|g: Seq<Seq<u8>>| combine_spec(g, size));
        assert(groups.flatten() == g0 + rest.flatten());
        lemma_or_fold_split(g0, rest.flatten(), i);
        lemma_or_fold_grouped(rest, size, i);
        assert(mapped =~= seq![m0] + mrest);
        lemma_or_fold_split(seq![m0], mrest, i);
        let e = Seq::<Seq<u8>>::empty();
        assert(seq![m0].drop_last() =~= e);
        assert(or_fold(e, i) == 0u8);
        assert(or_fold(seq![m0], i) == (0u8 | m0[i]));
        assert(m0[i] == or_fold(g0, i));
        let x = or_fold(g0, i);
        let y = or_fold(rest.flatten(), i);
        assert((x | y) == ((0u8 | x) | y)) by (bit_vector);
    }
}

/// Composition over any partition of the sources: splitting the source
/// list into consecutive groups, combining each group on its own, and
/// then combining the group results gives the composite of the whole
/// list — however many groups, of whatever sizes.
pub proof fn lemma_combine_grouped(groups: Seq<Seq<Seq<u8>>>, size: nat)
    ensures
        combine_spec(groups.flatten(), size) == combine_spec(
            groups.map_values(|g: Seq<Seq<u8>>| combine_spec(g, size)),
            size,
        ),
{
    let mapped = groups.map_values(|g: Seq<Seq<u8>>| combine_spec(g, size));
    assert forall|i: int| 0 <= i < size implies combine_spec(groups.flatten(), size)[i]
        == combine_spec(mapped, size)[i] by {
        lemma_or_fold_grouped(groups, size, i);
    }
    assert(combine_spec(groups.flatten(), size) =~= combine_spec(mapped, size));
}

/// Composing an empty source list yields the all-zero buffer.
pub proof fn lemma_combine_empty(size: nat)
    ensures
        combine_spec(Seq::<Seq<u8>>::empty(), size) == Seq::new(size, |i: int| 0u8),
{
    assert(combine_spec(Seq::<Seq<u8>>::empty(), size) =~= Seq::new(size, |i: int| 0u8));
}

/// ORs `src[lo..lo + out.len()]` into `out`, byte by byte.
fn or_into(out: &mut Vec<u8>, src: &Vec<u8>, lo: usize)
    requires
        lo + old(out)@.len() <= src@.len(),
    ensures
        final(out)@.len() == old(out)@.len(),
        forall|i: int|
            0 <= i < old(out)@.len() ==> final(out)@[i] == (old(out)@[i] | src@[lo + i]),
{
    let n = out.len();
    let m = src.len();
    let mut i: usize = 0;
    while i < n
        invariant
            i <= n,
            n == out@.len(),
            n == old(out)@.len(),
            m == src@.len(),
            lo + n <= m,
            forall|k: int| i <= k < n ==> out@[k] == old(out)@[k],
            forall|k: int| 0 <= k < i ==> out@[k] == (old(out)@[k] | src@[lo + k]),
        decreases n - i,
    {
        let v = out[i] | src[lo + i];
        out[i] = v;
        i = i + 1;
    }
}

/// The views of a list of buffers.
pub open spec fn views_of(sources: Seq<Vec<u8>>) -> Seq<Seq<u8>> {
    sources.map_values(|v: Vec<u8>| v@)
}

/// Combines the given edge buffers into one freshly allocated composite
/// buffer of length `buf_size` by bitwise OR. Every source must have
/// exactly `buf_size` bytes; otherwise nothing is combined and the
/// dimension mismatch is reported.
pub fn combine_images(sources: &Vec<Vec<u8>>, buf_size: usize) -> (r: Result<Vec<u8>, Error>)
    ensures
        r is Ok <==> (forall|j: int| 0 <= j < sources@.len() ==> sources@[j]@.len() == buf_size),
        r is Ok ==> r->Ok_0@ == combine_spec(views_of(sources@), buf_size as nat),
        r is Err ==> r->Err_0 == Error::DimensionMismatch,
{
    let n = sources.len();
    let mut j: usize = 0;
    while j < n
        invariant
            j <= n,
            n == sources@.len(),
            forall|k: int| 0 <= k < j ==> sources@[k]@.len() == buf_size,
        decreases n - j,
    {
        if sources[j].len() != buf_size {
            return Err(Error::DimensionMismatch);
        }
        j = j + 1;
    }

    let mut out: Vec<u8> = vec![0u8; buf_size];
    assert(out@ =~= combine_spec(views_of(sources@).take(0), buf_size as nat));

    let mut k: usize = 0;
    while k < n
        invariant
            k <= n,
            n == sources@.len(),
            out@.len() == buf_size,
            forall|j2: int| 0 <= j2 < n ==> sources@[j2]@.len() == buf_size,
            out@ == combine_spec(views_of(sources@).take(k as int), buf_size as nat),
        decreases n - k,
    {
        let ghost prefix = views_of(sources@).take(k as int);
        or_into(&mut out, &sources[k], 0);
        proof {
            let next = views_of(sources@).take(k + 1);
            assert(next.drop_last() =~= prefix);
            assert(next.last() == sources@[k as int]@);
            assert(out@ =~= combine_spec(next, buf_size as nat));
        }
        k = k + 1;
    }
    proof {
        assert(views_of(sources@).take(n as int) =~= views_of(sources@));
    }
    Ok(out)
}

/// Combines only the offsets `lo..hi` of the composite: the output has
/// length `hi - lo` and its byte `i` is the composite's byte `lo + i`.
///
/// Disjoint offset ranges of the composite may therefore be produced by
/// independent workers, each writing only its own output, and stitched
/// together afterwards; no two workers ever touch the same byte.
pub fn combine_range(sources: &Vec<Vec<u8>>, buf_size: usize, lo: usize, hi: usize) -> (r: Vec<
    u8,
>)
    requires
        lo <= hi <= buf_size,
        forall|j: int| 0 <= j < sources@.len() ==> sources@[j]@.len() == buf_size,
    ensures
        r@ == combine_spec(views_of(sources@), buf_size as nat).subrange(lo as int, hi as int),
{
    let n = sources.len();
    let span = hi - lo;
    let mut out: Vec<u8> = vec![0u8; span];

    let mut k: usize = 0;
    while k < n
        invariant
            k <= n,
            n == sources@.len(),
            lo <= hi <= buf_size,
            out@.len() == hi - lo,
            forall|j2: int| 0 <= j2 < n ==> sources@[j2]@.len() == buf_size,
            forall|i: int|
                0 <= i < hi - lo ==> out@[i] == or_fold(views_of(sources@).take(k as int), lo + i),
        decreases n - k,
    {
        let ghost prefix = views_of(sources@).take(k as int);
        or_into(&mut out, &sources[k], lo);
        proof {
            let next = views_of(sources@).take(k + 1);
            assert(next.drop_last() =~= prefix);
            assert(next.last() == sources@[k as int]@);
        }
        k = k + 1;
    }
    proof {
        assert(views_of(sources@).take(n as int) =~= views_of(sources@));
        assert(out@ =~= combine_spec(views_of(sources@), buf_size as nat).subrange(
            lo as int,
            hi as int,
        ));
    }
    out
}

/// Combines the sources exactly as `combine_images` does, but builds the
/// output out of independent `combine_range` pieces of at most `chunk`
/// bytes each — the partition-by-offset schedule a worker pool would use.
/// The contract pins the result to the very same composite, whatever the
/// chunk size: the reduction is deterministic under partitioning.
pub fn combine_partitioned(sources: &Vec<Vec<u8>>, buf_size: usize, chunk: usize) -> (r: Vec<u8>)
    requires
        chunk >= 1,
        forall|j: int| 0 <= j < sources@.len() ==> sources@[j]@.len() == buf_size,
    ensures
        r@ == combine_spec(views_of(sources@), buf_size as nat),
{
    let ghost whole = combine_spec(views_of(sources@), buf_size as nat);
    let mut out: Vec<u8> = Vec::new();
    let mut lo: usize = 0;
    while lo < buf_size
        invariant
            lo <= buf_size,
            chunk >= 1,
            forall|j2: int| 0 <= j2 < sources@.len() ==> sources@[j2]@.len() == buf_size,
            whole == combine_spec(views_of(sources@), buf_size as nat),
            out@ == whole.subrange(0, lo as int),
        decreases buf_size - lo,
    {
        let hi = if buf_size - lo < chunk {
            buf_size
        } else {
            lo + chunk
        };
        let mut piece = combine_range(sources, buf_size, lo, hi);
        out.append(&mut piece);
        proof {
            assert(out@ =~= whole.subrange(0, hi as int));
        }
        lo = hi;
    }
    proof {
        assert(out@ =~= whole);
    }
    out
}

} // verus!
