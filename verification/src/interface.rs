use vstd::prelude::*;

use crate::grid::{caches_built_by, lemma_cell_slot, Grid, KernelCache};
use crate::rule::{copy_values, KernelDef};

verus! {

/// The buffer of `total` cells with `old_nc` values each, laid out for `new_nc`
/// values per cell: each cell keeps its first `min(old_nc, new_nc)` values and
/// the values added hold `zero`.
pub open spec fn relayout<F>(data: Seq<F>, total: int, old_nc: int, new_nc: int, zero: F) -> Seq<F> {
    Seq::new((total * new_nc) as nat, |j: int|
        if j % new_nc < old_nc { data[(j / new_nc) * old_nc + j % new_nc] } else { zero })
}

/// What `change_channel_count` asks of a grid to change it to `new_count` channels.
pub open spec fn channel_change_ok<F>(grid: Grid<F>, new_count: usize) -> bool {
    let total = grid.width * grid.height;
    let old_nc = grid.rule.num_channels as int;
    let keep = if new_count < old_nc { new_count as int } else { old_nc };
    new_count != old_nc ==> {
        &&& total <= usize::MAX
        &&& total * new_count <= usize::MAX
        &&& (total == 0 || (total - 1) * old_nc <= usize::MAX)
        &&& (total == 0 || keep == 0 || (total - 1) * old_nc + keep <= grid.cell_data@.len())
        &&& (new_count > 0 || grid.rule.kernels@.len() == 0)
    }
}

/// Whether `change_channel_count` can change `grid` to `new_count` channels:
/// the new buffer size fits in memory, every value that is kept exists, and a
/// rule with kernels is not left without channels.
pub fn can_change_channel_count<F>(grid: &Grid<F>, new_count: usize) -> (r: bool)
    ensures
        r == channel_change_ok(*grid, new_count),
{
    let old_nc = grid.rule.num_channels;
    if new_count == old_nc {
        return true;
    }
    let total = match grid.width.checked_mul(grid.height) {
        Some(t) => t,
        None => {
            return false;
        },
    };
    match total.checked_mul(new_count) {
        None => {
            return false;
        },
        Some(_) => {},
    }
    if new_count == 0 && grid.rule.kernels.len() != 0 {
        return false;
    }
    if total == 0 {
        return true;
    }
    let last_base = match (total - 1).checked_mul(old_nc) {
        Some(b) => b,
        None => {
            return false;
        },
    };
    let keep = if new_count < old_nc { new_count } else { old_nc };
    if keep == 0 {
        return true;
    }
    let len = grid.cell_data.len();
    match last_base.checked_add(keep) {
        Some(end) => end <= len,
        None => false,
    }
}

/// Changes the number of channels of every cell of `grid` to `new_count`:
/// each cell keeps the values of the channels that remain and new channels
/// start at `zero`; the spare buffer is reset to `zero`, and each kernel's
/// source and target channels are clamped to the last channel; the kernel
/// caches are then rebuilt by `build`. Nothing changes when the count is the
/// current one.
pub fn change_channel_count<F: Copy, B: Fn(&KernelDef<F>) -> KernelCache<F>>(
    grid: &mut Grid<F>,
    new_count: usize,
    zero: F,
    build: B,
)
    requires
        forall|k: &KernelDef<F>| #[trigger] build.requires((k,)),
        channel_change_ok(*old(grid), new_count),
    ensures
        new_count == old(grid).rule.num_channels ==> *final(grid) == *old(grid),
        new_count != old(grid).rule.num_channels ==> {
            let total = old(grid).width * old(grid).height;
            &&& *final(grid) == (Grid {
                cell_data: final(grid).cell_data,
                next_cell_data: final(grid).next_cell_data,
                rule: final(grid).rule,
                kernel_caches: final(grid).kernel_caches,
                prev_kernel_sig: final(grid).prev_kernel_sig,
                ..*old(grid)
            })
            &&& caches_built_by(build, final(grid).rule.kernels@, final(grid).kernel_caches@, final(grid).prev_kernel_sig@)
            &&& final(grid).rule == (crate::rule::Rule {
                num_channels: new_count,
                kernels: final(grid).rule.kernels,
                ..old(grid).rule
            })
            &&& final(grid).cell_data@ == relayout(old(grid).cell_data@, total,
                old(grid).rule.num_channels as int, new_count as int, zero)
            &&& final(grid).next_cell_data@ == Seq::new((total * new_count) as nat, |j: int| zero)
            &&& final(grid).rule.kernels@.len() == old(grid).rule.kernels@.len()
            &&& forall|k: int| 0 <= k < old(grid).rule.kernels@.len() ==> {
                let o = #[trigger] old(grid).rule.kernels@[k];
                final(grid).rule.kernels@[k] == (KernelDef {
                    c0: if o.c0 < new_count - 1 { o.c0 } else { (new_count - 1) as usize },
                    c1: if o.c1 < new_count - 1 { o.c1 } else { (new_count - 1) as usize },
                    ..o
                })
            }
        },
{
    if new_count == grid.rule.num_channels {
        return;
    }
    let old_channels = grid.rule.num_channels;
    let total_cells = grid.width * grid.height;
    let size = total_cells * new_count;
    let mut new_data: Vec<F> = Vec::new();
    while new_data.len() < size
        invariant
            new_data@.len() <= size,
            forall|j: int| 0 <= j < new_data@.len() ==> #[trigger] new_data@[j] == zero,
        decreases size - new_data@.len(),
    {
        new_data.push(zero);
    }
    let copy_len = if new_count < old_channels { new_count } else { old_channels };
    let ghost old_data = grid.cell_data@;
    let data_len = grid.cell_data.len();
    let mut i: usize = 0;
    while i < total_cells
        invariant
            old_data == grid.cell_data@,
            data_len == old_data.len(),
            grid.rule.num_channels == old_channels,
            old_channels != new_count,
            total_cells == grid.width * grid.height,
            size == total_cells * new_count,
            copy_len == if new_count < old_channels { new_count } else { old_channels },
            total_cells == 0 || (total_cells - 1) * old_channels <= usize::MAX,
            total_cells == 0 || copy_len == 0 || (total_cells - 1) * old_channels + copy_len <= old_data.len(),
            new_data@.len() == size,
            i <= total_cells,
            forall|j: int| 0 <= j < size ==> #[trigger] new_data@[j] == if j < i * new_count {
                relayout(old_data, total_cells as int, old_channels as int, new_count as int, zero)[j]
            } else {
                zero
            },
        decreases total_cells - i,
    {
        assert(i * old_channels <= (total_cells - 1) * old_channels) by (nonlinear_arith)
            requires i < total_cells;
        assert(i * new_count + new_count <= total_cells * new_count) by (nonlinear_arith)
            requires i < total_cells;
        assert((i + 1) * new_count == i * new_count + new_count) by (nonlinear_arith);
        let old_base = i * old_channels;
        let new_base = i * new_count;
        let mut c: usize = 0;
        while c < copy_len
            invariant
                old_data == grid.cell_data@,
                data_len == old_data.len(),
                old_channels != new_count,
                i < total_cells,
                old_base == i * old_channels,
                new_base == i * new_count,
                size == total_cells * new_count,
                new_base + new_count <= size,
                (i + 1) * new_count == i * new_count + new_count,
                copy_len == if new_count < old_channels { new_count } else { old_channels },
                i * old_channels <= (total_cells - 1) * old_channels,
                total_cells == 0 || copy_len == 0 || (total_cells - 1) * old_channels + copy_len <= old_data.len(),
                new_data@.len() == size,
                c <= copy_len,
                forall|j: int| 0 <= j < size ==> #[trigger] new_data@[j] == if j < i * new_count + c {
                    relayout(old_data, total_cells as int, old_channels as int, new_count as int, zero)[j]
                } else {
                    zero
                },
            decreases copy_len - c,
        {
            proof {
                lemma_cell_slot(i as int, c as int, new_count as int);
            }
            let v = grid.cell_data[old_base + c];
            new_data.set(new_base + c, v);
            c = c + 1;
        }
        assert forall|j: int| 0 <= j < size implies #[trigger] new_data@[j] == if j < (i + 1) * new_count {
            relayout(old_data, total_cells as int, old_channels as int, new_count as int, zero)[j]
        } else {
            zero
        } by {
            if i * new_count + copy_len <= j < (i + 1) * new_count {
                let cc = j - i * new_count;
                lemma_cell_slot(i as int, cc, new_count as int);
            }
        }
        i = i + 1;
    }
    assert(new_data@ =~= relayout(old_data, total_cells as int, old_channels as int, new_count as int, zero));
    grid.cell_data = new_data;
    let mut spare: Vec<F> = Vec::new();
    while spare.len() < size
        invariant
            spare@.len() <= size,
            forall|j: int| 0 <= j < spare@.len() ==> #[trigger] spare@[j] == zero,
        decreases size - spare@.len(),
    {
        spare.push(zero);
    }
    assert(spare@ =~= Seq::new(size as nat, |j: int| zero));
    grid.next_cell_data = spare;
    grid.rule.num_channels = new_count;
    let nk = grid.rule.kernels.len();
    let ghost mid = *grid;
    let mut k: usize = 0;
    while k < nk
        invariant
            nk == grid.rule.kernels@.len() == old(grid).rule.kernels@.len(),
            new_count > 0 || nk == 0,
            k <= nk,
            *grid == (Grid { rule: grid.rule, ..mid }),
            grid.rule == (crate::rule::Rule { kernels: grid.rule.kernels, ..mid.rule }),
            mid.rule.kernels == old(grid).rule.kernels,
            forall|t: int| 0 <= t < nk ==> {
                let o = #[trigger] old(grid).rule.kernels@[t];
                grid.rule.kernels@[t] == if t < k {
                    KernelDef {
                        c0: if o.c0 < new_count - 1 { o.c0 } else { (new_count - 1) as usize },
                        c1: if o.c1 < new_count - 1 { o.c1 } else { (new_count - 1) as usize },
                        ..o
                    }
                } else {
                    o
                }
            },
        decreases nk - k,
    {
        let kd = &mut grid.rule.kernels[k];
        kd.c0 = kd.c0.min(new_count - 1);
        kd.c1 = kd.c1.min(new_count - 1);
        k = k + 1;
    }
    grid.rebuild_all_kernels(build);
}


/// Changing the channel count from `a` to `b` and back to `a` keeps every
/// value of a channel that both counts have and resets the other channels to `zero`.
pub proof fn law_channel_change_round_trip<F>(data: Seq<F>, total: int, a: int, b: int, zero: F, i: int, c: int)
    requires
        a > 0,
        b > 0,
        0 <= i < total,
        0 <= c < a,
    ensures
        relayout(relayout(data, total, a, b, zero), total, b, a, zero)[i * a + c]
            == if c < b { data[i * a + c] } else { zero },
{
    let r1 = relayout(data, total, a, b, zero);
    lemma_cell_slot(i, c, a);
    assert(i * a + c < total * a) by (nonlinear_arith) requires 0 <= i < total, 0 <= c < a;
    if c < b {
        lemma_cell_slot(i, c, b);
        assert(i * b + c < total * b) by (nonlinear_arith) requires 0 <= i < total, 0 <= c < b;
        assert(r1[i * b + c] == data[i * a + c]);
    }
}

/// The kernel that `add_default_kernel` appends to a rule whose kernels are `kernels`.
pub open spec fn default_kernel<F>(kernels: Seq<KernelDef<F>>, fallback: KernelDef<F>) -> KernelDef<F> {
    if kernels.len() > 0 {
        KernelDef { c0: 0, c1: 0, use_target: false, ..kernels[0] }
    } else {
        fallback
    }
}

/// The kernel added to a rule is a copy of the rule's first kernel in every
/// parameter but its channels, both 0, and its mode, growth rather than
/// target; a rule without kernels gets the fallback kernel.
pub proof fn law_added_kernel_copies_first<F>(kernels: Seq<KernelDef<F>>, fallback: KernelDef<F>)
    ensures
        kernels.len() > 0 ==> {
            let k = default_kernel(kernels, fallback);
            &&& k.mu == kernels[0].mu
            &&& k.sigma == kernels[0].sigma
            &&& k.base_radius == kernels[0].base_radius
            &&& k.relative_radius == kernels[0].relative_radius
            &&& k.height == kernels[0].height
            &&& k.peaks == kernels[0].peaks
            &&& k.polynomial == kernels[0].polynomial
            &&& k.alpha == kernels[0].alpha
            &&& k.kernel_kind == kernels[0].kernel_kind
            &&& k.c0 == 0
            &&& k.c1 == 0
            &&& !k.use_target
        },
        kernels.len() == 0 ==> default_kernel(kernels, fallback) == fallback,
{
}

/// Appends a kernel to the grid's rule: a copy of its first kernel that reads
/// and feeds channel 0 in growth (not target) mode, or `fallback` when the rule
/// has no kernel yet; the kernel caches are then rebuilt by `build`.
pub fn add_default_kernel<F: Copy, B: Fn(&KernelDef<F>) -> KernelCache<F>>(
    grid: &mut Grid<F>,
    fallback: KernelDef<F>,
    build: B,
)
    requires
        forall|k: &KernelDef<F>| #[trigger] build.requires((k,)),
    ensures
        *final(grid) == (Grid {
            rule: crate::rule::Rule { kernels: final(grid).rule.kernels, ..old(grid).rule },
            kernel_caches: final(grid).kernel_caches,
            prev_kernel_sig: final(grid).prev_kernel_sig,
            ..*old(grid)
        }),
        caches_built_by(build, final(grid).rule.kernels@, final(grid).kernel_caches@, final(grid).prev_kernel_sig@),
        ({
            let ks = final(grid).rule.kernels@;
            let added = default_kernel(old(grid).rule.kernels@, fallback);
            &&& ks.len() == old(grid).rule.kernels@.len() + 1
            &&& ks.drop_last() == old(grid).rule.kernels@
            &&& ks.last() == (KernelDef { peaks: ks.last().peaks, ..added })
            &&& ks.last().peaks@ == added.peaks@
        }),
        old(grid).rule.kernels@.len() > 0 ==> {
            let first = old(grid).rule.kernels@[0];
            let appended = final(grid).rule.kernels@.last();
            &&& appended == (KernelDef { c0: 0, c1: 0, use_target: false, peaks: appended.peaks, ..first })
            &&& appended.peaks@ == first.peaks@
        },
        old(grid).rule.kernels@.len() == 0 ==> final(grid).rule.kernels@.last() == fallback,
{
    let new_kernel = if grid.rule.kernels.len() > 0 {
        let k = &grid.rule.kernels[0];
        let peaks = copy_values(&k.peaks);
        KernelDef {
            mu: k.mu,
            sigma: k.sigma,
            base_radius: k.base_radius,
            relative_radius: k.relative_radius,
            height: k.height,
            peaks,
            c0: 0,
            c1: 0,
            use_target: false,
            polynomial: k.polynomial,
            alpha: k.alpha,
            kernel_kind: k.kernel_kind,
        }
    } else {
        fallback
    };
    grid.rule.kernels.push(new_kernel);
    assert(grid.rule.kernels@.drop_last() =~= old(grid).rule.kernels@);
    grid.rebuild_all_kernels(build);
}

/// Applies the kernel panel's edits once its kernels have been shown: the
/// kernel `to_remove` asked for is removed, but only while the rule has more
/// than one kernel, and the kernel caches are rebuilt by `build` when a kernel
/// was removed or `kernels_changed` says the kernels were edited.
pub fn apply_kernel_edits<F: Copy, B: Fn(&KernelDef<F>) -> KernelCache<F>>(
    grid: &mut Grid<F>,
    to_remove: Option<usize>,
    kernels_changed: bool,
    build: B,
)
    requires
        forall|k: &KernelDef<F>| #[trigger] build.requires((k,)),
        to_remove is Some && old(grid).rule.kernels@.len() > 1 ==> to_remove->0 < old(grid).rule.kernels@.len(),
    ensures
        ({
            let ks = old(grid).rule.kernels@;
            let removed = to_remove is Some && ks.len() > 1;
            &&& final(grid).rule.kernels@ == if removed { ks.remove(to_remove->0 as int) } else { ks }
            &&& removed || kernels_changed ==> {
                &&& *final(grid) == (Grid {
                    rule: crate::rule::Rule { kernels: final(grid).rule.kernels, ..old(grid).rule },
                    kernel_caches: final(grid).kernel_caches,
                    prev_kernel_sig: final(grid).prev_kernel_sig,
                    ..*old(grid)
                })
                &&& caches_built_by(build, final(grid).rule.kernels@, final(grid).kernel_caches@, final(grid).prev_kernel_sig@)
            }
            &&& !(removed || kernels_changed) ==> *final(grid) == *old(grid)
        }),
{
    let mut changed = kernels_changed;
    if let Some(ki) = to_remove {
        if grid.rule.kernels.len() > 1 {
            grid.rule.kernels.remove(ki);
            changed = true;
        }
    }
    if changed {
        grid.rebuild_all_kernels(build);
    }
}

/// `s` without any occurrence of `n`, the other values in their order.
pub open spec fn without(s: Seq<u8>, n: u8) -> Seq<u8>
    decreases s.len(),
{
    if s.len() == 0 {
        s
    } else if s.last() == n {
        without(s.drop_last(), n)
    } else {
        without(s.drop_last(), n).push(s.last())
    }
}

/// Whether `s` is in non-decreasing order.
pub open spec fn ascending(s: Seq<u8>) -> bool {
    forall|i: int, j: int| 0 <= i < j < s.len() ==> s[i] <= s[j]
}

/// Whether `after` is what toggling `n` makes of the count list `before`.
pub open spec fn toggled(before: Seq<u8>, n: u8, after: Seq<u8>) -> bool {
    &&& before.contains(n) ==> after == without(before, n)
    &&& !before.contains(n) ==> {
        &&& after.to_multiset() == before.push(n).to_multiset()
        &&& ascending(after)
    }
}

/// The order of counts: `a` comes no later than `b`.
pub open spec fn count_leq(a: u8, b: u8) -> bool {
    a <= b
}

/// What toggling `n` makes of the count list `before`: every occurrence of `n`
/// removed when the list holds it, otherwise `n` added and the list sorted.
pub open spec fn toggle(before: Seq<u8>, n: u8) -> Seq<u8> {
    if before.contains(n) {
        without(before, n)
    } else {
        before.push(n).sort_by(|a: u8, b: u8| count_leq(a, b))
    }
}

/// What toggling each count of `clicks`, in order, makes of `before`.
pub open spec fn toggle_all(before: Seq<u8>, clicks: Seq<u8>) -> Seq<u8>
    decreases clicks.len(),
{
    if clicks.len() == 0 {
        before
    } else {
        toggle(toggle_all(before, clicks.drop_last()), clicks.last())
    }
}

proof fn lemma_toggled_is_toggle(before: Seq<u8>, n: u8, after: Seq<u8>)
    requires
        toggled(before, n, after),
    ensures
        after == toggle(before, n),
{
    if !before.contains(n) {
        let leq = |a: u8, b: u8| count_leq(a, b);
        assert(vstd::relations::total_ordering(leq)) by {
            assert(vstd::relations::reflexive(leq));
            assert(vstd::relations::antisymmetric(leq));
            assert(vstd::relations::transitive(leq));
            assert(vstd::relations::strongly_connected(leq));
        }
        let s = before.push(n);
        s.lemma_sort_by_ensures(leq);
        assert(vstd::relations::sorted_by(after, leq)) by {
            assert forall|i: int, j: int| 0 <= i < j < after.len() implies #[trigger] leq(after[i], after[j]) by {
                assert(after[i] <= after[j]);
            }
        }
        vstd::seq_lib::lemma_sorted_unique(after, s.sort_by(leq), leq);
    }
}

/// Whether `s` is in strictly increasing order: sorted, each count once.
pub open spec fn strictly_ascending(s: Seq<u8>) -> bool {
    forall|i: int, j: int| 0 <= i < j < s.len() ==> s[i] < s[j]
}

/// Sorts counts in ascending order by calling `slice::sort`. Trusted, not
/// proved: the contract claims what the documentation of `sort` says, that the
/// result holds the same values, as many times each, in non-decreasing order.
#[verifier::external_body]
fn sort_counts(v: &mut Vec<u8>)
    ensures
        final(v)@.to_multiset() == old(v)@.to_multiset(),
        ascending(final(v)@),
{
    v.sort();
}

/// Toggles the neighbour count `n` in a birth or survival list: removes every
/// occurrence of `n` when the list holds it, and otherwise adds it and sorts
/// the list.
pub fn toggle_count(counts: &mut Vec<u8>, n: u8)
    ensures
        toggled(old(counts)@, n, final(counts)@),
        final(counts)@ == toggle(old(counts)@, n),
{
    let len = counts.len();
    let mut checked = false;
    let mut i: usize = 0;
    while i < len
        invariant
            len == counts@.len(),
            i <= len,
            checked <==> counts@.take(i as int).contains(n),
        decreases len - i,
    {
        let ghost before = counts@.take(i as int);
        let ghost after = counts@.take(i + 1);
        assert(after =~= before.push(counts@[i as int]));
        if counts[i] == n {
            checked = true;
            assert(after[i as int] == n);
        }
        proof {
            if after.contains(n) && counts@[i as int] != n {
                let k = choose|k: int| 0 <= k < after.len() && after[k] == n;
                assert(before[k] == n);
            }
            if before.contains(n) {
                let k = choose|k: int| 0 <= k < before.len() && before[k] == n;
                assert(after[k] == n);
            }
        }
        i = i + 1;
    }
    assert(counts@.take(len as int) =~= counts@);
    if checked {
        let mut kept: Vec<u8> = Vec::new();
        let mut i: usize = 0;
        while i < len
            invariant
                len == counts@.len(),
                i <= len,
                kept@ == without(counts@.take(i as int), n),
            decreases len - i,
        {
            assert(counts@.take(i + 1).drop_last() =~= counts@.take(i as int));
            if counts[i] != n {
                kept.push(counts[i]);
            }
            i = i + 1;
        }
        assert(counts@.take(len as int) =~= counts@);
        *counts = kept;
    } else {
        counts.push(n);
        sort_counts(counts);
    }
    proof {
        lemma_toggled_is_toggle(old(counts)@, n, counts@);
    }
}


/// Applies the toggles of one frame of count buttons: toggles each count of
/// `clicked`, in order. With each count clicked at most once, a count ends up
/// in the list exactly when it was in it or was clicked, but not both; a list
/// that was sorted with each count once stays so.
pub fn toggle_counts(counts: &mut Vec<u8>, clicked: &Vec<u8>)
    ensures
        final(counts)@ == toggle_all(old(counts)@, clicked@),
        clicked@.no_duplicates() ==> forall|m: u8|
            #[trigger] final(counts)@.contains(m) <==> (old(counts)@.contains(m) != clicked@.contains(m)),
        strictly_ascending(old(counts)@) ==> strictly_ascending(final(counts)@),
{
    let n = clicked.len();
    let mut i: usize = 0;
    while i < n
        invariant
            n == clicked@.len(),
            i <= n,
            clicked@.no_duplicates() ==> forall|m: u8|
                #[trigger] counts@.contains(m) <==> (old(counts)@.contains(m) != clicked@.take(i as int).contains(m)),
            strictly_ascending(old(counts)@) ==> strictly_ascending(counts@),
            counts@ == toggle_all(old(counts)@, clicked@.take(i as int)),
        decreases n - i,
    {
        let ghost before = counts@;
        let c = clicked[i];
        toggle_count(counts, c);
        proof {
            assert(clicked@.take(i + 1).drop_last() =~= clicked@.take(i as int));
            assert(clicked@.take(i + 1).last() == c);
            if strictly_ascending(old(counts)@) {
                law_toggle_keeps_strictly_ascending(before, c, counts@);
            }
            let prefix = clicked@.take(i as int);
            let next = clicked@.take(i + 1);
            assert(next =~= prefix.push(c));
            if clicked@.no_duplicates() {
                assert(!prefix.contains(c)) by {
                    if prefix.contains(c) {
                        let k = choose|k: int| 0 <= k < prefix.len() && prefix[k] == c;
                        assert(clicked@[k] == clicked@[i as int]);
                    }
                }
                assert forall|m: u8| #[trigger] counts@.contains(m) <==> (old(counts)@.contains(m) != next.contains(m)) by {
                    law_toggle_flips_one_count(before, c, counts@, m);
                    if m == c {
                        assert(next[i as int] == c);
                    } else {
                        if next.contains(m) {
                            let k = choose|k: int| 0 <= k < next.len() && next[k] == m;
                            assert(prefix[k] == m);
                        }
                        if prefix.contains(m) {
                            let k = choose|k: int| 0 <= k < prefix.len() && prefix[k] == m;
                            assert(next[k] == m);
                        }
                    }
                }
            }
        }
        i = i + 1;
    }
    assert(clicked@.take(n as int) =~= clicked@);
}

proof fn lemma_without_contains(s: Seq<u8>, n: u8, m: u8)
    ensures
        without(s, n).contains(m) <==> (s.contains(m) && m != n),
    decreases s.len(),
{
    if s.len() > 0 {
        let s0 = s.drop_last();
        lemma_without_contains(s0, n, m);
        assert(s =~= s0.push(s.last()));
        let w0 = without(s0, n);
        if s.last() != n {
            assert(without(s, n) == w0.push(s.last()));
            if w0.push(s.last()).contains(m) && m != s.last() {
                let k = choose|k: int| 0 <= k < w0.push(s.last()).len() && w0.push(s.last())[k] == m;
                assert(w0[k] == m);
            }
            if w0.contains(m) {
                let k = choose|k: int| 0 <= k < w0.len() && w0[k] == m;
                assert(w0.push(s.last())[k] == m);
            }
            assert(w0.push(s.last())[w0.len() as int] == s.last());
        }
        if s.contains(m) && m != s.last() {
            let k = choose|k: int| 0 <= k < s.len() && s[k] == m;
            assert(s0[k] == m);
        }
        if s0.contains(m) {
            let k = choose|k: int| 0 <= k < s0.len() && s0[k] == m;
            assert(s[k] == m);
        }
        assert(s[s.len() - 1] == s.last());
    }
}

proof fn lemma_without_strictly_ascending(s: Seq<u8>, n: u8)
    requires
        strictly_ascending(s),
    ensures
        strictly_ascending(without(s, n)),
    decreases s.len(),
{
    if s.len() > 0 {
        let s0 = s.drop_last();
        assert(strictly_ascending(s0));
        lemma_without_strictly_ascending(s0, n);
        let w0 = without(s0, n);
        if s.last() != n {
            assert forall|i: int| 0 <= i < w0.len() implies #[trigger] w0[i] < s.last() by {
                lemma_without_contains(s0, n, w0[i]);
                assert(w0.contains(w0[i]));
                let k = choose|k: int| 0 <= k < s0.len() && s0[k] == w0[i];
                assert(s[k] == s0[k]);
            }
            assert forall|i: int, j: int| 0 <= i < j < w0.push(s.last()).len()
                implies w0.push(s.last())[i] < w0.push(s.last())[j] by {
                if j == w0.len() {
                    assert(w0[i] < s.last());
                }
            }
        }
    }
}

proof fn lemma_strictly_ascending_unique(a: Seq<u8>, b: Seq<u8>)
    requires
        strictly_ascending(a),
        strictly_ascending(b),
        forall|x: u8| a.contains(x) <==> b.contains(x),
    ensures
        a == b,
    decreases a.len() + b.len(),
{
    if a.len() == 0 || b.len() == 0 {
        if a.len() > 0 {
            assert(a.contains(a[0]));
        }
        if b.len() > 0 {
            assert(b.contains(b[0]));
        }
        assert(a =~= b);
    } else {
        assert(a.contains(a[0]) && b.contains(b[0]));
        let ka = choose|k: int| 0 <= k < b.len() && b[k] == a[0];
        let kb = choose|k: int| 0 <= k < a.len() && a[k] == b[0];
        assert(a[0] == b[0]) by {
            if kb > 0 {
                assert(a[0] < a[kb]);
            }
            if ka > 0 {
                assert(b[0] < b[ka]);
            }
        }
        let a1 = a.drop_first();
        let b1 = b.drop_first();
        assert forall|x: u8| a1.contains(x) <==> b1.contains(x) by {
            if a1.contains(x) {
                let k = choose|k: int| 0 <= k < a1.len() && a1[k] == x;
                assert(a[k + 1] == x && a[0] < a[k + 1]);
                assert(b.contains(x));
                let j = choose|j: int| 0 <= j < b.len() && b[j] == x;
                assert(j != 0);
                assert(b1[j - 1] == x);
            }
            if b1.contains(x) {
                let k = choose|k: int| 0 <= k < b1.len() && b1[k] == x;
                assert(b[k + 1] == x && b[0] < b[k + 1]);
                assert(a.contains(x));
                let j = choose|j: int| 0 <= j < a.len() && a[j] == x;
                assert(j != 0);
                assert(a1[j - 1] == x);
            }
        }
        lemma_strictly_ascending_unique(a1, b1);
        assert(a =~= seq![a[0]] + a1);
        assert(b =~= seq![b[0]] + b1);
    }
}

/// Toggling `n` flips whether the list holds `n` and keeps every other count
/// as it was.
pub proof fn law_toggle_flips_one_count(before: Seq<u8>, n: u8, after: Seq<u8>, m: u8)
    requires
        toggled(before, n, after),
    ensures
        after.contains(n) <==> !before.contains(n),
        m != n ==> (after.contains(m) <==> before.contains(m)),
{
    broadcast use vstd::seq_lib::group_to_multiset_ensures;
    if before.contains(n) {
        lemma_without_contains(before, n, n);
        lemma_without_contains(before, n, m);
    } else {
        assert(before.push(n).contains(n)) by {
            assert(before.push(n)[before.len() as int] == n);
        }
        assert(before.push(n).contains(m) <==> before.contains(m) || m == n) by {
            if before.push(n).contains(m) && m != n {
                let k = choose|k: int| 0 <= k < before.push(n).len() && before.push(n)[k] == m;
                assert(before[k] == m);
            }
            if before.contains(m) {
                let k = choose|k: int| 0 <= k < before.len() && before[k] == m;
                assert(before.push(n)[k] == m);
            }
            if m == n {
                assert(before.push(n)[before.len() as int] == n);
            }
        }
        assert(after.to_multiset().count(m) == before.push(n).to_multiset().count(m));
        assert(after.to_multiset().count(n) == before.push(n).to_multiset().count(n));
    }
}

/// Toggling keeps a list that is sorted with each count once sorted with each count once.
pub proof fn law_toggle_keeps_strictly_ascending(before: Seq<u8>, n: u8, after: Seq<u8>)
    requires
        toggled(before, n, after),
        strictly_ascending(before),
    ensures
        strictly_ascending(after),
{
    broadcast use vstd::seq_lib::group_to_multiset_ensures;
    if before.contains(n) {
        lemma_without_strictly_ascending(before, n);
    } else {
        let p = before.push(n);
        assert(p.no_duplicates()) by {
            assert forall|i: int, j: int| 0 <= i < p.len() && 0 <= j < p.len() && i != j implies p[i] != p[j] by {
                if i == before.len() as int {
                    assert(before.contains(p[j]) ==> p[j] != n);
                    assert(before[j] == p[j]);
                } else if j == before.len() as int {
                    assert(before[i] == p[i]);
                } else {
                    assert(before[i] == p[i] && before[j] == p[j]);
                }
            }
        }
        p.lemma_multiset_has_no_duplicates();
        after.lemma_multiset_has_no_duplicates_conv();
        assert forall|i: int, j: int| 0 <= i < j < after.len() implies after[i] < after[j] by {
            assert(after[i] <= after[j]);
            assert(after[i] != after[j]);
        }
    }
}

/// Toggling the same count twice gives back a list that is sorted with each count once.
pub proof fn law_toggle_twice_restores(before: Seq<u8>, n: u8, middle: Seq<u8>, after: Seq<u8>)
    requires
        strictly_ascending(before),
        toggled(before, n, middle),
        toggled(middle, n, after),
    ensures
        after == before,
{
    law_toggle_keeps_strictly_ascending(before, n, middle);
    law_toggle_keeps_strictly_ascending(middle, n, after);
    assert forall|x: u8| after.contains(x) <==> before.contains(x) by {
        law_toggle_flips_one_count(before, n, middle, x);
        law_toggle_flips_one_count(middle, n, after, x);
    }
    lemma_strictly_ascending_unique(after, before);
}

} // verus!
