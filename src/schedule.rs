//! Gap detection and the partition of missing block numbers into work.
use std::collections::HashSet;
use vstd::prelude::*;

verus! {

broadcast use vstd::std_specs::hash::group_hash_axioms;

/// The block numbers of `[start, tip)` that are not in `indexed`, in ascending order.
pub open spec fn is_missing(start: int, tip: int, indexed: Set<i64>, n: i64) -> bool {
    start <= n < tip && !indexed.contains(n)
}

pub open spec fn strictly_ascending(s: Seq<i64>) -> bool {
    forall|i: int, j: int| 0 <= i < j < s.len() ==> s[i] < s[j]
}

/// Builds the set of the given block numbers.
pub fn vec_to_set(vec: Vec<i64>) -> (r: HashSet<i64>)
    ensures
        r@ == vec@.to_set(),
{
    let mut set: HashSet<i64> = HashSet::new();
    let mut i: usize = 0;
    while i < vec.len()
        invariant
            0 <= i <= vec@.len(),
            set@ == vec@.subrange(0, i as int).to_set(),
        decreases vec@.len() - i,
    {
        set.insert(vec[i]);
        proof {
            assert(vec@.subrange(0, i + 1) == vec@.subrange(0, i as int).push(vec@[i as int]));
            vec@.subrange(0, i as int).lemma_push_to_set_commute(vec@[i as int]);
        }
        i = i + 1;
    }
    assert(vec@.subrange(0, vec@.len() as int) == vec@);
    set
}

/// The missing block numbers: those of `[start, tip)` absent from `indexed`,
/// each once, in ascending order.
pub fn missing_blocks(start: i64, tip: i64, indexed: &HashSet<i64>) -> (r: Vec<i64>)
    ensures
        strictly_ascending(r@),
        forall|n: i64| r@.contains(n) <==> is_missing(start as int, tip as int, indexed@, n),
{
    let mut r: Vec<i64> = Vec::new();
    let mut n: i64 = start;
    while n < tip
        invariant
            start <= tip ==> start <= n <= tip,
            tip < start ==> n == start,
            strictly_ascending(r@),
            forall|k: int| 0 <= k < r@.len() ==> r@[k] < n,
            forall|m: i64| r@.contains(m) <==> is_missing(start as int, n as int, indexed@, m),
        decreases tip - n,
    {
        let ghost before = r@;
        if !indexed.contains(&n) {
            r.push(n);
        }
        proof {
            assert forall|m: i64| r@.contains(m) <==> is_missing(start as int, n + 1, indexed@, m) by {
                if r@.len() > before.len() {
                    assert(r@ == before.push(n));
                    if r@.contains(m) {
                        let k = choose|k: int| 0 <= k < r@.len() && r@[k] == m;
                        if k < before.len() {
                            assert(before.contains(m));
                        }
                    }
                    if before.contains(m) {
                        let k = choose|k: int| 0 <= k < before.len() && before[k] == m;
                        assert(r@[k] == m);
                    }
                    if m == n {
                        assert(r@[before.len() as int] == m);
                    }
                }
            }
        }
        n = n + 1;
    }
    r
}

/// The contents of a list of vectors.
pub open spec fn views(s: Seq<Vec<i64>>) -> Seq<Seq<i64>> {
    s.map_values(|c: Vec<i64>| c@)
}

/// The parts joined end to end.
pub open spec fn concat(parts: Seq<Seq<i64>>) -> Seq<i64>
    decreases parts.len(),
{
    if parts.len() == 0 {
        Seq::empty()
    } else {
        concat(parts.drop_last()) + parts.last()
    }
}

/// `parts` cuts `items` in order into non-empty runs of `size`, the last run
/// possibly shorter.
pub open spec fn is_chunking(parts: Seq<Seq<i64>>, items: Seq<i64>, size: int) -> bool {
    &&& concat(parts) == items
    &&& forall|k: int| 0 <= k < parts.len() ==> 0 < #[trigger] parts[k].len() <= size
    &&& forall|k: int| 0 <= k < parts.len() - 1 ==> #[trigger] parts[k].len() == size
}

/// Where part `k` of `len` items split into `parts` near-equal parts begins:
/// the first `len % parts` parts hold one item more than the others.
pub open spec fn part_start(len: int, parts: int, k: int) -> int {
    let base = len / parts;
    let extra = len % parts;
    k * base + if k < extra { k } else { extra }
}

pub proof fn lemma_concat_push(parts: Seq<Seq<i64>>, x: Seq<i64>)
    ensures
        concat(parts.push(x)) == concat(parts) + x,
{
    assert(parts.push(x).drop_last() == parts);
}

proof fn lemma_part_start_bounds(len: int, parts: int, k: int)
    requires
        0 <= len,
        0 < parts,
        0 <= k < parts,
    ensures
        part_start(len, parts, k + 1) == part_start(len, parts, k) + len / parts + if k < len
            % parts {
            1int
        } else {
            0int
        },
        0 <= part_start(len, parts, k),
        part_start(len, parts, k + 1) <= len,
        part_start(len, parts, parts) == len,
{
    let base = len / parts;
    let extra = len % parts;
    assert(len == parts * base + extra) by (nonlinear_arith)
        requires
            base == len / parts,
            extra == len % parts,
            parts > 0,
    ;
    assert((k + 1) * base == k * base + base) by (nonlinear_arith);
    assert(0 <= base) by (nonlinear_arith)
        requires
            base == len / parts,
            len >= 0,
            parts > 0,
    ;
    assert(0 <= k * base) by (nonlinear_arith)
        requires
            0 <= k,
            0 <= base,
    ;
    assert((k + 1) * base <= parts * base) by (nonlinear_arith)
        requires
            k + 1 <= parts,
            0 <= base,
    ;
}

/// A copy of `items[from..to]`.
pub fn copy_range(items: &Vec<i64>, from: usize, to: usize) -> (r: Vec<i64>)
    requires
        from <= to <= items@.len(),
    ensures
        r@ == items@.subrange(from as int, to as int),
{
    let mut r: Vec<i64> = Vec::new();
    let mut i: usize = from;
    while i < to
        invariant
            from <= i <= to <= items@.len(),
            r@ == items@.subrange(from as int, i as int),
        decreases to - i,
    {
        r.push(items[i]);
        assert(items@.subrange(from as int, i + 1) == items@.subrange(from as int, i as int).push(
            items@[i as int],
        ));
        i = i + 1;
    }
    r
}

/// Cuts `items` in order into runs of `size` items; the last run may be shorter.
pub fn chunks(items: &Vec<i64>, size: usize) -> (r: Vec<Vec<i64>>)
    requires
        size > 0,
    ensures
        is_chunking(views(r@), items@, size as int),
{
    let mut r: Vec<Vec<i64>> = Vec::new();
    let mut pos: usize = 0;
    while pos < items.len()
        invariant
            size > 0,
            pos <= items@.len(),
            concat(views(r@)) == items@.subrange(0, pos as int),
            forall|k: int| 0 <= k < r@.len() ==> 0 < #[trigger] r@[k]@.len() <= size,
            forall|k: int| 0 <= k < r@.len() - 1 ==> #[trigger] r@[k]@.len() == size,
            pos < items@.len() ==> forall|k: int| 0 <= k < r@.len() ==> #[trigger] r@[k]@.len() == size,
        decreases items@.len() - pos,
    {
        let end: usize = if items.len() - pos < size {
            items.len()
        } else {
            pos + size
        };
        let part = copy_range(items, pos, end);
        let ghost before = r@;
        r.push(part);
        proof {
            assert(views(r@) == views(before).push(part@));
            lemma_concat_push(views(before), part@);
            assert(items@.subrange(0, end as int) == items@.subrange(0, pos as int)
                + items@.subrange(pos as int, end as int));
            assert forall|k: int| 0 <= k < r@.len() implies 0 < #[trigger] r@[k]@.len()
                <= size && (k < r@.len() - 1 ==> r@[k]@.len() == size) && (end < items@.len()
                ==> r@[k]@.len() == size) by {
                if k < before.len() {
                    assert(r@[k] == before[k]);
                }
            }
        }
        pos = end;
    }
    assert(items@.subrange(0, items@.len() as int) == items@);
    r
}

/// Splits `items` into `providers` contiguous slices, in order, whose lengths
/// differ by at most one: slice `k` is `items[part_start(k)..part_start(k + 1)]`.
pub fn split_for_providers(items: &Vec<i64>, providers: usize) -> (r: Vec<Vec<i64>>)
    requires
        providers > 0,
    ensures
        r@.len() == providers,
        concat(views(r@)) == items@,
        forall|k: int|
            0 <= k < providers ==> #[trigger] r@[k]@ == items@.subrange(
                part_start(items@.len() as int, providers as int, k),
                part_start(items@.len() as int, providers as int, k + 1),
            ),
{
    let len = items.len();
    let base: usize = len / providers;
    let extra: usize = len % providers;
    let mut r: Vec<Vec<i64>> = Vec::new();
    let mut pos: usize = 0;
    let mut k: usize = 0;
    while k < providers
        invariant
            len == items@.len(),
            base == len / providers,
            extra == len % providers,
            providers > 0,
            k <= providers,
            r@.len() == k,
            pos == part_start(len as int, providers as int, k as int),
            pos <= len,
            concat(views(r@)) == items@.subrange(0, pos as int),
            forall|j: int|
                0 <= j < k ==> #[trigger] r@[j]@ == items@.subrange(
                    part_start(len as int, providers as int, j),
                    part_start(len as int, providers as int, j + 1),
                ),
        decreases providers - k,
    {
        proof {
            lemma_part_start_bounds(len as int, providers as int, k as int);
        }
        let size: usize = if k < extra {
            base + 1
        } else {
            base
        };
        let end: usize = pos + size;
        let part = copy_range(items, pos, end);
        let ghost before = r@;
        r.push(part);
        proof {
            assert(views(r@) == views(before).push(part@));
            lemma_concat_push(views(before), part@);
            assert(items@.subrange(0, end as int) == items@.subrange(0, pos as int)
                + items@.subrange(pos as int, end as int));
            assert forall|j: int| 0 <= j < k + 1 implies #[trigger] r@[j]@ == items@.subrange(
                part_start(len as int, providers as int, j),
                part_start(len as int, providers as int, j + 1),
            ) by {
                if j < k {
                    assert(r@[j] == before[j]);
                }
            }
        }
        pos = end;
        k = k + 1;
    }
    proof {
        lemma_part_start_bounds(len as int, providers as int, providers - 1);
        assert(items@.subrange(0, len as int) == items@);
    }
    r
}

/// The work of one provider: its slice cut into super-chunks of
/// `batch_size * workers` numbers, each cut into batches of `batch_size`.
pub open spec fn is_work_plan(plan: Seq<Vec<Vec<i64>>>, slice: Seq<i64>, batch_size: int, workers: int) -> bool {
    &&& is_chunking(plan.map_values(|b: Vec<Vec<i64>>| concat(views(b@))), slice, batch_size * workers)
    &&& forall|k: int| 0 <= k < plan.len() ==> is_chunking(views(#[trigger] plan[k]@), concat(views(plan[k]@)), batch_size)
}

/// Plans the work of one provider over its slice of missing numbers: one
/// store and checkpoint follow each super-chunk, whose batches run at once.
pub fn plan_provider_work(slice: &Vec<i64>, batch_size: usize, workers: usize) -> (r: Vec<Vec<Vec<i64>>>)
    requires
        batch_size > 0,
        workers > 0,
        batch_size * workers <= usize::MAX,
    ensures
        is_work_plan(r@, slice@, batch_size as int, workers as int),
{
    assert(batch_size * workers > 0) by (nonlinear_arith)
        requires
            batch_size > 0,
            workers > 0,
    ;
    let supers = chunks(slice, batch_size * workers);
    let mut r: Vec<Vec<Vec<i64>>> = Vec::new();
    let mut k: usize = 0;
    while k < supers.len()
        invariant
            batch_size > 0,
            k <= supers@.len(),
            r@.len() == k,
            forall|j: int| 0 <= j < k ==> #[trigger] concat(views(r@[j]@)) == supers@[j]@,
            forall|j: int| 0 <= j < k ==> is_chunking(views(#[trigger] r@[j]@), supers@[j]@, batch_size as int),
        decreases supers@.len() - k,
    {
        let batches = chunks(&supers[k], batch_size);
        let ghost before = r@;
        r.push(batches);
        proof {
            assert forall|j: int| 0 <= j < k + 1 implies #[trigger] concat(views(r@[j]@)) == supers@[j]@
                && is_chunking(views(r@[j]@), supers@[j]@, batch_size as int) by {
                if j < k {
                    assert(r@[j] == before[j]);
                }
            }
        }
        k = k + 1;
    }
    proof {
        assert(r@.map_values(|b: Vec<Vec<i64>>| concat(views(b@))) == views(supers@));
    }
    r
}

} // verus!
