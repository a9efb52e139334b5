use vstd::prelude::*;

use crate::ivec::{fits_i32, IVec2};
use crate::rule::{copy_values, KernelDef, KernelKind, Rule};
use crate::shapes::Shape;

verus! {

/// Remainder of `a / b` rounded toward zero, as the `%` operator on machine integers computes it.
pub open spec fn trunc_rem(a: int, b: int) -> int {
    if a >= 0 { a % b } else { -((-a) % b) }
}

/// Quotient of `a / b` rounded toward zero, as the `/` operator on machine integers computes it.
pub open spec fn trunc_div(a: int, b: int) -> int {
    if a >= 0 { a / b } else { -((-a) / b) }
}

/// The cell named by a row-major index on a grid of width `w`.
pub open spec fn index_to_cell(idx: int, w: int) -> IVec2 {
    IVec2 { x: trunc_rem(idx, w) as i32, y: trunc_div(idx, w) as i32 }
}

/// The row-major index of a cell on a grid of width `w`.
pub open spec fn cell_to_index(p: IVec2, w: int) -> int {
    trunc_rem(p.x as int, w) + p.y * w
}

/// The representative of `p` on a `w` by `h` torus: each coordinate is reduced
/// into `0..w` (resp. `0..h`) modulo the side length.
pub open spec fn wrap_cell(p: IVec2, w: int, h: int) -> IVec2 {
    IVec2 { x: (p.x as int % w) as i32, y: (p.y as int % h) as i32 }
}

/// Whether `p` lies on the `w` by `h` grid.
pub open spec fn on_grid(p: IVec2, w: int, h: int) -> bool {
    0 <= p.x < w && 0 <= p.y < h
}

/// The cell `p + o`.
pub open spec fn shifted(p: IVec2, o: IVec2) -> IVec2 {
    IVec2 { x: (p.x + o.x) as i32, y: (p.y + o.y) as i32 }
}

proof fn lemma_trunc_rem_bounds(a: int, b: int)
    requires
        b > 0,
    ensures
        -b < trunc_rem(a, b) < b,
        a >= 0 ==> 0 <= trunc_rem(a, b),
        a <= 0 ==> trunc_rem(a, b) <= 0,
        trunc_rem(a, b) + b * trunc_div(a, b) == a,
{
    if a >= 0 {
        vstd::arithmetic::div_mod::lemma_fundamental_div_mod(a, b);
    } else {
        vstd::arithmetic::div_mod::lemma_fundamental_div_mod(-a, b);
        let q = (-a) / b;
        assert(b * (-q) == -(b * q)) by (nonlinear_arith);
    }
}

proof fn lemma_wrap_coord(a: int, n: int)
    requires
        n > 0,
    ensures
        (trunc_rem(a, n) + n) % n == a % n,
        0 <= a % n < n,
{
    lemma_trunc_rem_bounds(a, n);
    let r = trunc_rem(a, n);
    let q = trunc_div(a, n);
    vstd::arithmetic::div_mod::lemma_mod_multiples_vanish(q - 1, r + n, n);
    assert(n * (q - 1) + (r + n) == a) by (nonlinear_arith)
        requires
            r + n * q == a,
    ;
    assert((n * (q - 1) + (r + n)) % n == (r + n) % n);
}


/// How `init` fills a grid.
#[derive(Clone, Copy, Debug, PartialEq, Eq, Structural)]
#[allow(non_camel_case_types)]
pub enum GenerationType {
    EMPTY,
    RANDOM,
    BLOB,
}

/// Precomputed neighbourhood of a kernel: each offset with its weight, and the total weight.
#[derive(Clone, Debug)]
pub struct KernelCache<F> {
    pub weights: Vec<(IVec2, F)>,
    pub sum: F,
}

/// The parameters of a kernel that its cache depends on.
#[derive(Clone, Debug, PartialEq)]
pub struct KernelSignature<F> {
    pub base_radius: i32,
    pub relative_radius: F,
    pub peaks: Vec<F>,
    pub kernel_kind: KernelKind,
}

/// Whether `sig` records the parameters of `kernel` that its cache depends on.
pub open spec fn signature_matches<F>(kernel: KernelDef<F>, sig: KernelSignature<F>) -> bool {
    &&& sig.base_radius == kernel.base_radius
    &&& sig.relative_radius == kernel.relative_radius
    &&& sig.peaks@ == kernel.peaks@
    &&& sig.kernel_kind == kernel.kernel_kind
}

/// Whether the recorded signatures are those of the kernels, one for one.
pub open spec fn signatures_current<F>(kernels: Seq<KernelDef<F>>, sigs: Seq<KernelSignature<F>>) -> bool {
    &&& sigs.len() == kernels.len()
    &&& forall|i: int| 0 <= i < kernels.len() ==> signature_matches(#[trigger] kernels[i], sigs[i])
}

/// Whether `caches` and `sigs` are what a rebuild with `build` leaves for
/// `kernels`: one cache per kernel made by `build`, and the kernels' signatures.
pub open spec fn caches_built_by<F, B: Fn(&KernelDef<F>) -> KernelCache<F>>(
    build: B,
    kernels: Seq<KernelDef<F>>,
    caches: Seq<KernelCache<F>>,
    sigs: Seq<KernelSignature<F>>,
) -> bool {
    &&& signatures_current(kernels, sigs)
    &&& caches.len() == kernels.len()
    &&& forall|i: int| 0 <= i < kernels.len() ==> build.ensures((&kernels[i],), #[trigger] caches[i])
}

/// Whether `build` can give only one cache for each kernel.
pub open spec fn builds_deterministically<F, B: Fn(&KernelDef<F>) -> KernelCache<F>>(build: B) -> bool {
    forall|k: &KernelDef<F>, a: KernelCache<F>, b: KernelCache<F>|
        #[trigger] build.ensures((k,), a) && #[trigger] build.ensures((k,), b) ==> a == b
}

/// Rebuilding depends on the kernels alone: with a builder that gives one
/// cache per kernel, two rebuilds for the same kernels leave the same caches
/// and signatures that record the same parameters, so rebuilding again
/// changes nothing.
pub proof fn law_rebuild_depends_only_on_kernels<F, B: Fn(&KernelDef<F>) -> KernelCache<F>>(
    build: B,
    kernels: Seq<KernelDef<F>>,
    caches1: Seq<KernelCache<F>>,
    sigs1: Seq<KernelSignature<F>>,
    caches2: Seq<KernelCache<F>>,
    sigs2: Seq<KernelSignature<F>>,
)
    requires
        builds_deterministically(build),
        caches_built_by(build, kernels, caches1, sigs1),
        caches_built_by(build, kernels, caches2, sigs2),
    ensures
        caches1 == caches2,
        sigs1.len() == sigs2.len(),
        forall|i: int| 0 <= i < sigs1.len() ==> {
            &&& (#[trigger] sigs1[i]).base_radius == sigs2[i].base_radius
            &&& sigs1[i].relative_radius == sigs2[i].relative_radius
            &&& sigs1[i].peaks@ == sigs2[i].peaks@
            &&& sigs1[i].kernel_kind == sigs2[i].kernel_kind
        },
{
    assert forall|i: int| 0 <= i < caches1.len() implies caches1[i] == caches2[i] by {
        assert(build.ensures((&kernels[i],), caches1[i]));
        assert(build.ensures((&kernels[i],), caches2[i]));
    }
    assert(caches1 =~= caches2);
    assert forall|i: int| 0 <= i < sigs1.len() implies {
        &&& (#[trigger] sigs1[i]).base_radius == sigs2[i].base_radius
        &&& sigs1[i].relative_radius == sigs2[i].relative_radius
        &&& sigs1[i].peaks@ == sigs2[i].peaks@
        &&& sigs1[i].kernel_kind == sigs2[i].kernel_kind
    } by {
        assert(signature_matches(kernels[i], sigs1[i]));
        assert(signature_matches(kernels[i], sigs2[i]));
    }
}

/// A toroidal grid of `width * height` cells, each holding `rule.num_channels`
/// values of type `F`, stored cell after cell in row-major order.
#[derive(Debug)]
pub struct Grid<F> {
    pub cell_data: Vec<F>,
    pub next_cell_data: Vec<F>,
    pub width: usize,
    pub height: usize,
    pub cell_size: F,
    pub prev_cell_size: F,
    pub rule: Rule<F>,
    pub paused: bool,
    pub generation_type: GenerationType,
    pub kernel_caches: Vec<KernelCache<F>>,
    pub prev_kernel_sig: Vec<KernelSignature<F>>,
}

impl<F> Grid<F> {
    /// The width as the index arithmetic sees it: converted to an `i32`.
    pub open spec fn w32(&self) -> int {
        (self.width as i32) as int
    }

    /// The height as the index arithmetic sees it: converted to an `i32`.
    pub open spec fn h32(&self) -> int {
        (self.height as i32) as int
    }

    /// Side lengths that fit in an `i32`, as every whole-grid operation needs.
    pub open spec fn sides_ok(&self) -> bool {
        0 < self.width <= i32::MAX && 0 < self.height <= i32::MAX
    }

    /// Whether `wrap_pos` can reduce `pos`: positive sides, and each
    /// coordinate's remainder plus the side stays within `i32`.
    pub open spec fn wraps(&self, pos: IVec2) -> bool {
        &&& 0 < self.w32()
        &&& 0 < self.h32()
        &&& fits_i32(trunc_rem(pos.x as int, self.w32()) + self.w32())
        &&& fits_i32(trunc_rem(pos.y as int, self.h32()) + self.h32())
    }

    /// Number of values that a full buffer of this grid holds.
    pub open spec fn buffer_len(&self) -> int {
        self.width * self.height * self.rule.num_channels
    }

    /// Whether `wrap_pos` can reduce `pos` on this grid.
    pub fn can_wrap(&self, pos: IVec2) -> (r: bool)
        ensures
            r == self.wraps(pos),
    {
        let w = self.width as i32;
        let h = self.height as i32;
        if w <= 0 || h <= 0 {
            return false;
        }
        proof {
            lemma_trunc_rem_bounds(pos.x as int, w as int);
            lemma_trunc_rem_bounds(pos.y as int, h as int);
        }
        (pos.x % w) as i64 + w as i64 <= i32::MAX as i64 && (pos.y % h) as i64 + h as i64 <= i32::MAX as i64
    }

    /// Whether `vector_to_idx` can compute the index of `pos` on this grid.
    pub fn can_index(&self, pos: IVec2) -> (r: bool)
        ensures
            r == (0 < self.w32() && fits_i32(pos.y * self.w32()) && fits_i32(cell_to_index(pos, self.w32()))),
    {
        let w = self.width as i32;
        if w <= 0 {
            return false;
        }
        proof {
            lemma_trunc_rem_bounds(pos.x as int, w as int);
        }
        assert(-0x8000_0000 * 0x8000_0000 <= pos.y * w <= 0x8000_0000 * 0x8000_0000) by (nonlinear_arith)
            requires -0x8000_0000 <= pos.y < 0x8000_0000, 0 < w < 0x8000_0000;
        let row = pos.y as i64 * w as i64;
        if row < i32::MIN as i64 || row > i32::MAX as i64 {
            return false;
        }
        let idx = (pos.x % w) as i64 + row;
        i32::MIN as i64 <= idx && idx <= i32::MAX as i64
    }

    /// The cell at a row-major index; negative indices follow the
    /// truncating division of machine integers.
    pub fn idx_to_vector(&self, idx: i32) -> (r: IVec2)
        requires
            0 < self.w32(),
        ensures
            r == index_to_cell(idx as int, self.w32()),
    {
        let w = self.width as i32;
        proof {
            lemma_trunc_rem_bounds(idx as int, w as int);
            if idx >= 0 {
                vstd::arithmetic::div_mod::lemma_div_is_ordered_by_denominator(idx as int, 1, w as int);
            } else {
                vstd::arithmetic::div_mod::lemma_div_is_ordered_by_denominator(-idx, 1, w as int);
            }
        }
        IVec2::new(idx % w, idx / w)
    }

    /// The row-major index of a cell.
    pub fn vector_to_idx(&self, pos: IVec2) -> (r: i32)
        requires
            0 < self.w32(),
            fits_i32(pos.y * self.w32()),
            fits_i32(cell_to_index(pos, self.w32())),
        ensures
            r == cell_to_index(pos, self.w32()),
    {
        let w = self.width as i32;
        proof {
            lemma_trunc_rem_bounds(pos.x as int, w as int);
        }
        pos.x % w + pos.y * w
    }

    /// The representative of `pos` on the torus.
    pub fn wrap_pos(&self, pos: IVec2) -> (r: IVec2)
        requires
            self.wraps(pos),
        ensures
            r == wrap_cell(pos, self.w32(), self.h32()),
            on_grid(r, self.w32(), self.h32()),
    {
        let w = self.width as i32;
        let h = self.height as i32;
        proof {
            lemma_trunc_rem_bounds(pos.x as int, w as int);
            lemma_trunc_rem_bounds(pos.y as int, h as int);
            lemma_wrap_coord(pos.x as int, w as int);
            lemma_wrap_coord(pos.y as int, h as int);
        }
        IVec2::new(((pos.x % w) + w) % w, ((pos.y % h) + h) % h)
    }

    /// Toggles between running and paused.
    pub fn pause(&mut self)
        ensures
            *final(self) == paused_toggled(*old(self)),
    {
        self.paused = !self.paused;
    }
}


/// Whether `after` is `before` fitted to `n` values: kept when it has that
/// length, else cut to its first `n` values or padded with clones of `zero`.
pub open spec fn fitted<F: Clone>(before: Seq<F>, after: Seq<F>, n: int, zero: F) -> bool {
    &&& after.len() == n
    &&& forall|i: int| 0 <= i < n && i < before.len() ==> #[trigger] after[i] == before[i]
    &&& forall|i: int| before.len() <= i < n ==> cloned(zero, #[trigger] after[i])
}

/// Whether `v` is what `init` may write at buffer position `j` of a grid of
/// width `w` with `nc` channels per cell, for generation type `gt`.
pub open spec fn init_holds<F, V: Fn(IVec2, usize) -> F>(
    v: F,
    j: int,
    nc: int,
    w: int,
    gt: GenerationType,
    value: V,
    zero: F,
) -> bool {
    let cell = index_to_cell(j / nc, w);
    let c = j % nc;
    match gt {
        GenerationType::EMPTY => v == zero,
        GenerationType::RANDOM => value.ensures((cell, c as usize), v),
        GenerationType::BLOB => if c == 0 { value.ensures((cell, 0usize), v) } else { v == zero },
    }
}

/// Whether `s` lists the kernels that feed channel `c`: exactly those whose
/// target channel is `c`, in ascending order.
pub open spec fn feeds<F>(kernels: Seq<KernelDef<F>>, c: int, s: Seq<usize>) -> bool {
    &&& forall|j: int| 0 <= j < s.len() ==> #[trigger] s[j] < kernels.len() && kernels[s[j] as int].c1 == c
    &&& forall|j: int, k: int| 0 <= j < k < s.len() ==> s[j] < s[k]
    &&& forall|i: int| 0 <= i < kernels.len() && #[trigger] kernels[i].c1 == c ==> s.contains(i as usize)
}

/// Whether `v` is what a generation step may write at buffer position `j` of
/// a grid of width `w` with `nc` channels per cell: a value that `update`
/// returns for the state `cells`, the cell and channel of `j`, and the
/// kernels feeding that channel.
pub open spec fn stepped<F, G: Fn(&Vec<F>, &Rule<F>, &Vec<KernelCache<F>>, usize, IVec2, usize, &Vec<usize>) -> F>(
    v: F,
    j: int,
    nc: int,
    w: int,
    cells: Vec<F>,
    rule: Rule<F>,
    caches: Vec<KernelCache<F>>,
    update: G,
) -> bool {
    exists|fv: Vec<usize>| #![trigger feeds(rule.kernels@, j % nc, fv@)]
        feeds(rule.kernels@, j % nc, fv@)
        && update.ensures((&cells, &rule, &caches, (j / nc) as usize, index_to_cell(j / nc, w), (j % nc) as usize, &fv), v)
}

pub(crate) proof fn lemma_cell_slot(i: int, c: int, nc: int)
    requires
        0 <= c < nc,
        0 <= i,
    ensures
        (i * nc + c) / nc == i,
        (i * nc + c) % nc == c,
{
    vstd::arithmetic::div_mod::lemma_fundamental_div_mod_converse(i * nc + c, nc, i, c);
}

/// Whether `a` fits in an `i32` and so does its remainder by `n` plus `n`.
fn coord_fits(a: i64, n: i64) -> (r: bool)
    requires
        0 < n <= i32::MAX,
    ensures
        r == cell_fits(a as int, n as int),
{
    if a < i32::MIN as i64 || a > i32::MAX as i64 {
        return false;
    }
    proof {
        lemma_trunc_rem_bounds(a as int, n as int);
    }
    let rem = a % n;
    assert(rem == trunc_rem(a as int, n as int));
    rem + n <= i32::MAX as i64
}

/// `n` copies of `v`.
fn filled<F: Copy>(n: usize, v: F) -> (r: Vec<F>)
    ensures
        r@ == Seq::new(n as nat, |i: int| v),
{
    let mut r: Vec<F> = Vec::new();
    while r.len() < n
        invariant
            r@.len() <= n,
            forall|j: int| 0 <= j < r@.len() ==> #[trigger] r@[j] == v,
        decreases n - r@.len(),
    {
        r.push(v);
    }
    assert(r@ =~= Seq::new(n as nat, |i: int| v));
    r
}

impl<F> Grid<F> {
    /// Whether `spawn_shape` can place the shape named `shape_name` from `shapes`
    /// on this grid: the catalogue is not empty, the grid's sides and buffer fit
    /// machine arithmetic, and the chosen shape is well formed and close enough
    /// to the centre for its cell offsets to be added to it.
    #[verifier::loop_isolation(false)]
    pub fn can_spawn(&self, shape_name: &String, shapes: &Vec<Shape<F>>) -> (r: bool)
        ensures
            r == (shapes@.len() > 0 && self.sides_ok() && self.width * self.height <= i32::MAX + 1
                && self.width * self.height * shapes@[chosen_shape(shapes@, shape_name@)].optimal_rule.num_channels
                    <= usize::MAX
                && spawnable(shapes@[chosen_shape(shapes@, shape_name@)], self.width as int, self.height as int)),
    {
        if shapes.len() == 0 || !(0 < self.width && self.width <= i32::MAX as usize && 0 < self.height
            && self.height <= i32::MAX as usize) {
            return false;
        }
        let total = match self.width.checked_mul(self.height) {
            Some(t) => t,
            None => {
                return false;
            },
        };
        if total > 0x8000_0000 {
            return false;
        }
        let sel = shape_index(shapes, shape_name);
        let shape = &shapes[sel];
        let nc = shape.optimal_rule.num_channels;
        let total_cells = self.width * self.height;
        match total_cells.checked_mul(nc) {
            None => {
                return false;
            },
            Some(_) => {},
        }
        let n = shape.cells_state.len();
        if shape.cells_pos.len() < n {
            return false;
        }
        if shape.cells_channel.len() != 0 && shape.cells_channel.len() < n {
            return false;
        }
        if nc == 0 && shape.cells_channel.len() == 0 && n != 0 {
            return false;
        }
        let w = self.width as i64;
        let h = self.height as i64;
        let cx = w / 2;
        let cy = h / 2;
        let mut i: usize = 0;
        while i < n
            invariant
                n == shape.cells_state@.len(),
                shape.cells_pos@.len() >= n,
                i <= n,
                w == self.width,
                h == self.height,
                cx == self.width / 2,
                cy == self.height / 2,
                0 < self.width <= i32::MAX,
                0 < self.height <= i32::MAX,
                forall|j: int| 0 <= j < i ==> cell_fits(self.width / 2 + (#[trigger] shape.cells_pos@[j]).x, self.width as int)
                    && cell_fits(self.height / 2 + shape.cells_pos@[j].y, self.height as int),
            decreases n - i,
        {
            let p = shape.cells_pos[i];
            if !coord_fits(cx + p.x as i64, w) || !coord_fits(cy + p.y as i64, h) {
                return false;
            }
            i = i + 1;
        }
        true
    }
}

impl<F: Copy> Grid<F> {
    /// A paused grid of `width` by `height` cells under `rule`, set to be
    /// filled at random: its kernel caches are built by `build`, and `init`
    /// then gives every channel of every cell a value that `value` returns for
    /// that cell and channel; the spare buffer holds `zero`.
    pub fn new<B: Fn(&KernelDef<F>) -> KernelCache<F>, V: Fn(IVec2, usize) -> F>(
        width: usize,
        height: usize,
        cell_size: F,
        rule: Rule<F>,
        zero: F,
        build: B,
        value: V,
    ) -> (r: Self)
        requires
            width * height > 0 ==> width <= i32::MAX,
            width * height <= i32::MAX + 1,
            width * height * rule.num_channels <= usize::MAX,
            forall|k: &KernelDef<F>| #[trigger] build.requires((k,)),
            forall|p: IVec2, c: usize| #[trigger] value.requires((p, c)),
        ensures
            r.width == width,
            r.height == height,
            r.cell_size == cell_size,
            r.prev_cell_size == cell_size,
            r.rule == rule,
            r.paused,
            r.generation_type == GenerationType::RANDOM,
            r.cell_data@.len() == width * height * rule.num_channels,
            forall|j: int| 0 <= j < r.cell_data@.len() ==> init_holds(#[trigger] r.cell_data@[j], j,
                rule.num_channels as int, width as int, GenerationType::RANDOM, value, zero),
            r.next_cell_data@ == Seq::new((width * height * rule.num_channels) as nat, |i: int| zero),
            caches_built_by(build, r.rule.kernels@, r.kernel_caches@, r.prev_kernel_sig@),
    {
        let total = (width * height) * rule.num_channels;
        let mut grid = Grid {
            cell_data: filled(total, zero),
            next_cell_data: filled(total, zero),
            width,
            height,
            cell_size,
            prev_cell_size: cell_size,
            rule,
            paused: true,
            generation_type: GenerationType::RANDOM,
            kernel_caches: Vec::new(),
            prev_kernel_sig: Vec::new(),
        };
        grid.rebuild_all_kernels(build);
        grid.init(zero, value);
        grid
    }

    /// Pauses the grid and fills its buffer by its generation type: `zero`
    /// everywhere when empty; otherwise, for each cell, a value that `value`
    /// returns for the cell and channel, on every channel when random and on
    /// channel 0 only when a blob, the other channels holding `zero`.
    pub fn init<V: Fn(IVec2, usize) -> F>(&mut self, zero: F, value: V)
        requires
            old(self).width * old(self).height <= usize::MAX,
            old(self).buffer_len() <= old(self).cell_data@.len(),
            old(self).generation_type != GenerationType::EMPTY ==> {
                &&& old(self).width * old(self).height > 0 ==> old(self).width <= i32::MAX
                &&& old(self).width * old(self).height <= i32::MAX + 1
            },
            forall|p: IVec2, c: usize| #[trigger] value.requires((p, c)),
        ensures
            *final(self) == (Grid { cell_data: final(self).cell_data, paused: true, ..*old(self) }),
            final(self).cell_data@.len() == old(self).cell_data@.len(),
            forall|j: int| 0 <= j < old(self).buffer_len() ==> init_holds(#[trigger] final(self).cell_data@[j], j,
                old(self).rule.num_channels as int, old(self).width as int, old(self).generation_type, value, zero),
            forall|j: int| old(self).buffer_len() <= j < old(self).cell_data@.len()
                ==> #[trigger] final(self).cell_data@[j] == old(self).cell_data@[j],
    {
        self.paused = true;
        let num_channels = self.rule.num_channels;
        let total_cells = self.width * self.height;
        let len = self.cell_data.len();
        let gt = self.generation_type;
        if gt == GenerationType::EMPTY {
            assert(total_cells * num_channels <= len);
            let n = total_cells * num_channels;
            let mut j: usize = 0;
            while j < n
                invariant
                    n == old(self).buffer_len(),
                    n <= len,
                    gt == GenerationType::EMPTY,
                    *self == (Grid { cell_data: self.cell_data, paused: true, ..*old(self) }),
                    self.cell_data@.len() == len == old(self).cell_data@.len(),
                    j <= n,
                    forall|t: int| 0 <= t < j ==> #[trigger] self.cell_data@[t] == zero,
                    forall|t: int| j <= t < len ==> #[trigger] self.cell_data@[t] == old(self).cell_data@[t],
                decreases n - j,
            {
                self.cell_data.set(j, zero);
                j = j + 1;
            }
            return;
        }
        let w = self.width;
        let h = self.height;
        assert(w * h > 0 ==> w > 0) by (nonlinear_arith);
        let mut i: usize = 0;
        while i < total_cells
            invariant
                num_channels == self.rule.num_channels == old(self).rule.num_channels,
                total_cells == self.width * self.height,
                gt == old(self).generation_type, gt != GenerationType::EMPTY,
                total_cells > 0 ==> 0 < self.width <= i32::MAX,
                total_cells <= i32::MAX + 1,
                *self == (Grid { cell_data: self.cell_data, paused: true, ..*old(self) }),
                self.cell_data@.len() == len == old(self).cell_data@.len(),
                total_cells * num_channels <= len,
                forall|p: IVec2, c: usize| #[trigger] value.requires((p, c)),
                i <= total_cells,
                forall|j: int| 0 <= j < i * num_channels ==> init_holds(#[trigger] self.cell_data@[j], j,
                    num_channels as int, self.width as int, gt, value, zero),
                forall|j: int| i * num_channels <= j < len ==> #[trigger] self.cell_data@[j] == old(self).cell_data@[j],
            decreases total_cells - i,
        {
            assert((i + 1) * num_channels <= total_cells * num_channels) by (nonlinear_arith)
                requires i < total_cells;
            assert((i + 1) * num_channels == i * num_channels + num_channels) by (nonlinear_arith);
            let pos = self.idx_to_vector(i as i32);
            let mut c: usize = 0;
            while c < num_channels
                invariant
                    num_channels == self.rule.num_channels == old(self).rule.num_channels,
                    total_cells == self.width * self.height,
                    gt == old(self).generation_type, gt != GenerationType::EMPTY,
                    0 < self.width <= i32::MAX,
                    pos == index_to_cell(i as int, self.width as int),
                    *self == (Grid { cell_data: self.cell_data, paused: true, ..*old(self) }),
                    self.cell_data@.len() == len,
                    forall|p: IVec2, c: usize| #[trigger] value.requires((p, c)),
                    i < total_cells,
                    (i + 1) * num_channels <= len,
                    (i + 1) * num_channels == i * num_channels + num_channels,
                    c <= num_channels,
                    forall|j: int| 0 <= j < i * num_channels + c ==> init_holds(#[trigger] self.cell_data@[j], j,
                        num_channels as int, self.width as int, gt, value, zero),
                    forall|j: int| i * num_channels + c <= j < len ==> #[trigger] self.cell_data@[j] == old(self).cell_data@[j],
                decreases num_channels - c,
            {
                let v = if gt == GenerationType::RANDOM || c == 0 {
                    value(pos, c)
                } else {
                    zero
                };
                proof {
                    lemma_cell_slot(i as int, c as int, num_channels as int);
                }
                assert(i * num_channels + c < len);
                self.cell_data.set(i * num_channels + c, v);
                c = c + 1;
            }
            i = i + 1;
        }
    }

    /// Rebuilds the kernel caches from the rule's kernels: one cache per kernel,
    /// made by `build`, and beside it the kernel's signature, so that the caches
    /// are known to be current as long as the signatures match the kernels.
    pub fn rebuild_all_kernels<B: Fn(&KernelDef<F>) -> KernelCache<F>>(&mut self, build: B)
        requires
            forall|k: &KernelDef<F>| #[trigger] build.requires((k,)),
        ensures
            *final(self) == (Grid {
                kernel_caches: final(self).kernel_caches,
                prev_kernel_sig: final(self).prev_kernel_sig,
                ..*old(self)
            }),
            caches_built_by(build, final(self).rule.kernels@, final(self).kernel_caches@, final(self).prev_kernel_sig@),
    {
        self.kernel_caches.clear();
        self.prev_kernel_sig.clear();
        let n = self.rule.kernels.len();
        let mut i: usize = 0;
        while i < n
            invariant
                *self == (Grid { kernel_caches: self.kernel_caches, prev_kernel_sig: self.prev_kernel_sig, ..*old(self) }),
                n == self.rule.kernels@.len(),
                forall|k: &KernelDef<F>| #[trigger] build.requires((k,)),
                i <= n,
                self.kernel_caches@.len() == i,
                self.prev_kernel_sig@.len() == i,
                forall|j: int| 0 <= j < i ==> signature_matches(#[trigger] self.rule.kernels@[j], self.prev_kernel_sig@[j]),
                forall|j: int| 0 <= j < i ==> build.ensures((&self.rule.kernels@[j],), #[trigger] self.kernel_caches@[j]),
            decreases n - i,
        {
            let k = &self.rule.kernels[i];
            let cache = build(k);
            let sig = KernelSignature {
                base_radius: k.base_radius,
                relative_radius: k.relative_radius,
                peaks: copy_values(&k.peaks),
                kernel_kind: k.kernel_kind,
            };
            self.prev_kernel_sig.push(sig);
            self.kernel_caches.push(cache);
            i = i + 1;
        }
    }

    /// Fits both buffers to the grid's size before a generation step: a buffer
    /// of another length is cut to, or padded with clones of `zero` up to,
    /// `width * height * num_channels` values.
    pub fn fit_buffers(&mut self, zero: F)
        requires
            old(self).width * old(self).height <= usize::MAX,
            old(self).buffer_len() <= usize::MAX,
        ensures
            *final(self) == (Grid {
                cell_data: final(self).cell_data,
                next_cell_data: final(self).next_cell_data,
                ..*old(self)
            }),
            fitted(old(self).cell_data@, final(self).cell_data@, old(self).buffer_len(), zero),
            fitted(old(self).next_cell_data@, final(self).next_cell_data@, old(self).buffer_len(), zero),
    {
        let num_channels = self.rule.num_channels;
        let total_cells = self.width * self.height;
        let expected_size = total_cells * num_channels;
        if self.cell_data.len() != expected_size {
            self.cell_data.resize(expected_size, zero);
        }
        if self.next_cell_data.len() != expected_size {
            self.next_cell_data.resize(expected_size, zero);
        }
    }

    /// Exchanges the two buffers, making the spare buffer the grid's state.
    pub fn swap_buffers(&mut self)
        ensures
            *final(self) == (Grid {
                cell_data: old(self).next_cell_data,
                next_cell_data: old(self).cell_data,
                ..*old(self)
            }),
    {
        std::mem::swap(&mut self.cell_data, &mut self.next_cell_data);
    }

    /// One generation step. Both buffers are first fitted to the grid's size;
    /// then every channel `c` of every cell gets the value that `update`
    /// returns for the current state, the cell's index and position, `c`, and
    /// the kernels feeding `c` (in ascending order); the new values become the
    /// grid's state and the fitted old state its spare buffer.
    pub fn generation<G: Fn(&Vec<F>, &Rule<F>, &Vec<KernelCache<F>>, usize, IVec2, usize, &Vec<usize>) -> F>(
        &mut self,
        zero: F,
        update: G,
    )
        requires
            old(self).rule.num_channels > 0,
            old(self).width * old(self).height <= i32::MAX + 1,
            old(self).width * old(self).height > 0 ==> 0 < old(self).w32(),
            old(self).buffer_len() <= usize::MAX,
            forall|cells: &Vec<F>, rule: &Rule<F>, caches: &Vec<KernelCache<F>>, i: usize, p: IVec2, c: usize, fv: &Vec<usize>|
                #[trigger] update.requires((cells, rule, caches, i, p, c, fv)),
        ensures
            *final(self) == (Grid {
                cell_data: final(self).cell_data,
                next_cell_data: final(self).next_cell_data,
                ..*old(self)
            }),
            fitted(old(self).cell_data@, final(self).next_cell_data@, old(self).buffer_len(), zero),
            final(self).cell_data@.len() == old(self).buffer_len(),
            forall|j: int| 0 <= j < old(self).buffer_len() ==> stepped(#[trigger] final(self).cell_data@[j], j,
                old(self).rule.num_channels as int, old(self).w32(), final(self).next_cell_data,
                old(self).rule, old(self).kernel_caches, update),
    {
        let num_channels = self.rule.num_channels;
        let total_cells = self.width * self.height;
        self.fit_buffers(zero);
        let mut feeding: Vec<Vec<usize>> = Vec::new();
        let mut c: usize = 0;
        while c < num_channels
            invariant
                num_channels == self.rule.num_channels,
                c <= num_channels,
                feeding@.len() == c,
                forall|k: int| 0 <= k < c ==> feeds(self.rule.kernels@, k, #[trigger] feeding@[k]@),
            decreases num_channels - c,
        {
            let fv = self.rule.kernels_into_channel(c);
            feeding.push(fv);
            c = c + 1;
        }
        let ghost fitted_grid = *self;
        let len = total_cells * num_channels;
        let mut next: Vec<F> = Vec::new();
        std::mem::swap(&mut next, &mut self.next_cell_data);
        let mut i: usize = 0;
        assert(i * num_channels == 0) by (nonlinear_arith)
            requires i == 0;
        while i < total_cells
            invariant
                num_channels == self.rule.num_channels > 0,
                total_cells == self.width * self.height,
                total_cells <= i32::MAX + 1,
                total_cells > 0 ==> 0 < self.w32(),
                len == total_cells * num_channels,
                *self == (Grid { next_cell_data: self.next_cell_data, ..fitted_grid }),
                next@.len() == len,
                feeding@.len() == num_channels,
                forall|k: int| 0 <= k < num_channels ==> feeds(self.rule.kernels@, k, #[trigger] feeding@[k]@),
                forall|cells: &Vec<F>, rule: &Rule<F>, caches: &Vec<KernelCache<F>>, i: usize, p: IVec2, c: usize, fv: &Vec<usize>|
                    #[trigger] update.requires((cells, rule, caches, i, p, c, fv)),
                i <= total_cells,
                forall|j: int| 0 <= j < i * num_channels ==> stepped(#[trigger] next@[j], j, num_channels as int,
                    self.w32(), self.cell_data, self.rule, self.kernel_caches, update),
            decreases total_cells - i,
        {
            assert((i + 1) * num_channels <= total_cells * num_channels) by (nonlinear_arith)
                requires i < total_cells;
            assert((i + 1) * num_channels == i * num_channels + num_channels) by (nonlinear_arith);
            let pos = self.idx_to_vector(i as i32);
            let mut c: usize = 0;
            while c < num_channels
                invariant
                    num_channels == self.rule.num_channels > 0,
                    *self == (Grid { next_cell_data: self.next_cell_data, ..fitted_grid }),
                    pos == index_to_cell(i as int, self.w32()),
                    next@.len() == len,
                    feeding@.len() == num_channels,
                    forall|k: int| 0 <= k < num_channels ==> feeds(self.rule.kernels@, k, #[trigger] feeding@[k]@),
                    forall|cells: &Vec<F>, rule: &Rule<F>, caches: &Vec<KernelCache<F>>, i: usize, p: IVec2, c: usize, fv: &Vec<usize>|
                        #[trigger] update.requires((cells, rule, caches, i, p, c, fv)),
                    i < total_cells,
                    (i + 1) * num_channels <= len,
                    (i + 1) * num_channels == i * num_channels + num_channels,
                    c <= num_channels,
                    forall|j: int| 0 <= j < i * num_channels + c ==> stepped(#[trigger] next@[j], j, num_channels as int,
                        self.w32(), self.cell_data, self.rule, self.kernel_caches, update),
                decreases num_channels - c,
            {
                let v = update(&self.cell_data, &self.rule, &self.kernel_caches, i, pos, c, &feeding[c]);
                proof {
                    lemma_cell_slot(i as int, c as int, num_channels as int);
                    let j = i * num_channels + c;
                    assert(feeds(self.rule.kernels@, j % (num_channels as int), feeding@[c as int]@));
                }
                next.set(i * num_channels + c, v);
                c = c + 1;
            }
            i = i + 1;
        }
        std::mem::swap(&mut self.cell_data, &mut next);
        self.next_cell_data = next;
    }

    /// Pauses the grid and sets every value of its buffer to `zero`.
    pub fn clear(&mut self, zero: F)
        requires
            old(self).width * old(self).height <= usize::MAX,
            old(self).buffer_len() <= old(self).cell_data@.len(),
        ensures
            *final(self) == (Grid { cell_data: final(self).cell_data, paused: true, ..*old(self) }),
            final(self).cell_data@.len() == old(self).cell_data@.len(),
            forall|i: int| 0 <= i < old(self).buffer_len() ==> #[trigger] final(self).cell_data@[i] == zero,
            forall|i: int| old(self).buffer_len() <= i < old(self).cell_data@.len()
                ==> #[trigger] final(self).cell_data@[i] == old(self).cell_data@[i],
    {
        self.paused = true;
        let num_channels = self.rule.num_channels;
        let total_cells = self.width * self.height;
        let len = self.cell_data.len();
        let mut i: usize = 0;
        while i < total_cells
            invariant
                num_channels == self.rule.num_channels == old(self).rule.num_channels,
                total_cells == self.width * self.height,
                *self == (Grid { cell_data: self.cell_data, paused: true, ..*old(self) }),
                self.cell_data@.len() == len == old(self).cell_data@.len(),
                total_cells * num_channels <= len,
                i <= total_cells,
                forall|j: int| 0 <= j < i * num_channels ==> #[trigger] self.cell_data@[j] == zero,
                forall|j: int| i * num_channels <= j < len ==> #[trigger] self.cell_data@[j] == old(self).cell_data@[j],
            decreases total_cells - i,
        {
            assert((i + 1) * num_channels <= total_cells * num_channels) by (nonlinear_arith)
                requires i < total_cells;
            assert((i + 1) * num_channels == i * num_channels + num_channels) by (nonlinear_arith);
            let mut c: usize = 0;
            while c < num_channels
                invariant
                    num_channels == self.rule.num_channels == old(self).rule.num_channels,
                    total_cells == self.width * self.height,
                    *self == (Grid { cell_data: self.cell_data, paused: true, ..*old(self) }),
                    self.cell_data@.len() == len,
                    i < total_cells,
                    (i + 1) * num_channels <= len,
                    (i + 1) * num_channels == i * num_channels + num_channels,
                    c <= num_channels,
                    forall|j: int| 0 <= j < i * num_channels + c ==> #[trigger] self.cell_data@[j] == zero,
                    forall|j: int| i * num_channels + c <= j < len ==> #[trigger] self.cell_data@[j] == old(self).cell_data@[j],
                decreases num_channels - c,
            {
                assert(i * num_channels + c < len);
                self.cell_data.set(i * num_channels + c, zero);
                c = c + 1;
            }
            i = i + 1;
        }
    }

    /// Replaces the grid's rule by that of the shape named `shape_name` (the
    /// last of that name, or the first shape when none is) and its buffer by the
    /// shape alone, centred on the grid. The buffer is first fitted to the
    /// shape's rule: resized, together with the spare buffer, when its length
    /// differs, then zeroed. The kernel caches are rebuilt by `build` for the
    /// new rule, so that they match its kernels afterwards.
    pub fn spawn_shape<B: Fn(&KernelDef<F>) -> KernelCache<F>>(
        &mut self,
        shape_name: String,
        shapes: Vec<Shape<F>>,
        zero: F,
        build: B,
    )
        requires
            forall|k: &KernelDef<F>| #[trigger] build.requires((k,)),
            shapes@.len() > 0,
            old(self).sides_ok(),
            old(self).width * old(self).height <= i32::MAX + 1,
            old(self).width * old(self).height * shapes@[chosen_shape(shapes@, shape_name@)].optimal_rule.num_channels
                <= usize::MAX,
            spawnable(shapes@[chosen_shape(shapes@, shape_name@)], old(self).width as int, old(self).height as int),
        ensures
            ({
                let shape = shapes@[chosen_shape(shapes@, shape_name@)];
                let nc = shape.optimal_rule.num_channels as int;
                let w = old(self).width as int;
                let h = old(self).height as int;
                let len = w * h * nc;
                &&& *final(self) == (Grid {
                    cell_data: final(self).cell_data,
                    next_cell_data: final(self).next_cell_data,
                    rule: shape.optimal_rule,
                    kernel_caches: final(self).kernel_caches,
                    prev_kernel_sig: final(self).prev_kernel_sig,
                    ..*old(self)
                })
                &&& caches_built_by(build, final(self).rule.kernels@, final(self).kernel_caches@, final(self).prev_kernel_sig@)
                &&& final(self).cell_data@ == spawned(Seq::new(len as nat, |i: int| zero), shape, w, h, nc, shape.cells_state@.len() as int)
                &&& old(self).cell_data@.len() == len ==> final(self).next_cell_data == old(self).next_cell_data
                &&& old(self).cell_data@.len() != len ==> {
                    &&& final(self).next_cell_data@.len() == len
                    &&& forall|i: int| 0 <= i < len && i < old(self).next_cell_data@.len()
                        ==> #[trigger] final(self).next_cell_data@[i] == old(self).next_cell_data@[i]
                    &&& forall|i: int| old(self).next_cell_data@.len() <= i < len
                        ==> cloned(zero, #[trigger] final(self).next_cell_data@[i])
                }
            }),
    {
        let sel = shape_index(&shapes, &shape_name);
        let mut shapes = shapes;
        let shape = shapes.remove(sel);
        let ghost shape_g = shape;
        let Shape { optimal_rule, cells_state, cells_pos, cells_channel, .. } = shape;
        self.rule = optimal_rule;
        self.rebuild_all_kernels(build);
        let num_channels = self.rule.num_channels;
        let total_cells = self.width * self.height;
        let expected_size = total_cells * num_channels;
        if self.cell_data.len() != expected_size {
            self.cell_data.resize(expected_size, zero);
            self.next_cell_data.resize(expected_size, zero);
        }
        let ghost pre = *self;
        let mut i: usize = 0;
        while i < expected_size
            invariant
                *self == (Grid { cell_data: self.cell_data, ..pre }),
                self.cell_data@.len() == expected_size,
                i <= expected_size,
                forall|j: int| 0 <= j < i ==> #[trigger] self.cell_data@[j] == zero,
            decreases expected_size - i,
        {
            self.cell_data.set(i, zero);
            i = i + 1;
        }
        let ghost data0 = self.cell_data@;
        let ghost mid = *self;
        assert(data0 =~= Seq::new(expected_size as nat, |j: int| zero));
        let center = IVec2::new(self.width as i32 / 2, self.height as i32 / 2);
        let count = cells_state.len();
        let mut i: usize = 0;
        while i < count
            invariant
                count == cells_state@.len(),
                i <= count,
                *self == (Grid { cell_data: self.cell_data, ..mid }),
                self.sides_ok(),
                self.width * self.height <= i32::MAX + 1,
                num_channels == self.rule.num_channels,
                total_cells == self.width * self.height,
                expected_size == total_cells * num_channels,
                self.cell_data@.len() == expected_size,
                center == grid_center(self.width as int, self.height as int),
                spawnable(shape_g, self.width as int, self.height as int),
                shape_g.optimal_rule.num_channels == num_channels,
                shape_g.cells_state == cells_state,
                shape_g.cells_pos == cells_pos,
                shape_g.cells_channel == cells_channel,
                self.cell_data@ == spawned(data0, shape_g, self.width as int, self.height as int,
                    num_channels as int, i as int),
            decreases count - i,
        {
            let pos = self.wrap_pos(center.plus(cells_pos[i]));
            proof {
                let w = self.width as int;
                let h = self.height as int;
                assert(pos.y * w <= (h - 1) * w) by (nonlinear_arith)
                    requires 0 <= pos.y < h, w > 0;
                assert((h - 1) * w == w * h - w) by (nonlinear_arith);
                assert(0 <= pos.y * w) by (nonlinear_arith) requires 0 <= pos.y, w > 0;
                vstd::arithmetic::div_mod::lemma_small_mod(pos.x as nat, w as nat);
            }
            let idx: usize = self.vector_to_idx(pos) as usize;
            if idx < total_cells {
                let ch = if !cells_channel.is_empty() {
                    cells_channel[i]
                } else if num_channels == 1 {
                    0
                } else {
                    i % num_channels
                };
                if ch < num_channels {
                    proof {
                        assert(idx * num_channels + ch < total_cells * num_channels) by (nonlinear_arith)
                            requires idx < total_cells, ch < num_channels;
                    }
                    self.cell_data.set(idx * num_channels + ch, cells_state[i]);
                }
            }
            i = i + 1;
        }
    }
}

/// Position in a channel-interleaved buffer of value `channel` of the cell
/// `pos + offset` on a `width` by `height` torus, where the shifted cell lies
/// less than one period outside the grid (as for any kernel no wider than the grid).
pub fn cell_index_at(
    pos: IVec2,
    offset: IVec2,
    width: usize,
    height: usize,
    num_channels: usize,
    channel: usize,
) -> (r: usize)
    requires
        0 < width <= i32::MAX,
        0 < height <= i32::MAX,
        width * height <= i32::MAX + 1,
        on_grid(pos, width as int, height as int),
        fits_i32(pos.x + offset.x),
        fits_i32(pos.y + offset.y),
        -width <= pos.x + offset.x < 2 * width,
        -height <= pos.y + offset.y < 2 * height,
        cell_to_index(wrap_cell(shifted(pos, offset), width as int, height as int), width as int)
            * num_channels + channel <= usize::MAX,
    ensures
        r == cell_to_index(wrap_cell(shifted(pos, offset), width as int, height as int), width as int)
            * num_channels + channel,
{
    let gw = width as i32;
    let gh = height as i32;
    let nx = pos.x + offset.x;
    let ny = pos.y + offset.y;
    let nx = nx - (nx >= gw) as i32 * gw + (nx < 0) as i32 * gw;
    let ny = ny - (ny >= gh) as i32 * gh + (ny < 0) as i32 * gh;
    proof {
        let ox = pos.x + offset.x;
        let oy = pos.y + offset.y;
        if ox >= gw {
            vstd::arithmetic::div_mod::lemma_mod_sub_multiples_vanish(ox, gw as int);
            vstd::arithmetic::div_mod::lemma_small_mod((ox - gw) as nat, gw as nat);
        } else if ox < 0 {
            vstd::arithmetic::div_mod::lemma_mod_add_multiples_vanish(ox, gw as int);
            vstd::arithmetic::div_mod::lemma_small_mod((ox + gw) as nat, gw as nat);
        } else {
            vstd::arithmetic::div_mod::lemma_small_mod(ox as nat, gw as nat);
        }
        if oy >= gh {
            vstd::arithmetic::div_mod::lemma_mod_sub_multiples_vanish(oy, gh as int);
            vstd::arithmetic::div_mod::lemma_small_mod((oy - gh) as nat, gh as nat);
        } else if oy < 0 {
            vstd::arithmetic::div_mod::lemma_mod_add_multiples_vanish(oy, gh as int);
            vstd::arithmetic::div_mod::lemma_small_mod((oy + gh) as nat, gh as nat);
        } else {
            vstd::arithmetic::div_mod::lemma_small_mod(oy as nat, gh as nat);
        }
        assert(0 <= nx < gw && 0 <= ny < gh);
        vstd::arithmetic::div_mod::lemma_small_mod(nx as nat, gw as nat);
        assert(ny * gw <= (gh - 1) * gw) by (nonlinear_arith)
            requires 0 <= ny < gh, gw > 0;
        assert((gh - 1) * gw == gh * gw - gw) by (nonlinear_arith);
        assert(0 <= ny * gw) by (nonlinear_arith) requires 0 <= ny, gw > 0;
        assert(gh * gw == width * height) by (nonlinear_arith) requires gh == height, gw == width;
    }
    (nx + ny * gw) as usize * num_channels + channel
}


/// Index of the shape that `spawn_shape` places for `name`: the last shape
/// so named, or the first shape when none is.
pub open spec fn chosen_shape<F>(shapes: Seq<Shape<F>>, name: Seq<char>) -> int
    decreases shapes.len(),
{
    if shapes.len() == 0 {
        0
    } else if shapes.last().name@ == name {
        shapes.len() - 1
    } else {
        chosen_shape(shapes.drop_last(), name)
    }
}

/// The index of the shape that `spawn_shape` places for `name`: the last shape
/// so named, or 0 when none is.
pub fn shape_index<F>(shapes: &Vec<Shape<F>>, name: &String) -> (r: usize)
    ensures
        r == chosen_shape(shapes@, name@),
        shapes@.len() > 0 ==> r < shapes@.len(),
{
    let n = shapes.len();
    let mut sel: usize = 0;
    let mut i: usize = 0;
    while i < n
        invariant
            n == shapes@.len(),
            i <= n,
            n > 0 ==> sel < n,
            sel == chosen_shape(shapes@.take(i as int), name@),
        decreases n - i,
    {
        assert(shapes@.take(i + 1).drop_last() =~= shapes@.take(i as int));
        if shapes[i].name == *name {
            sel = i;
        }
        i = i + 1;
    }
    assert(shapes@.take(n as int) =~= shapes@);
    sel
}

/// The centre cell of a `w` by `h` grid.
pub open spec fn grid_center(w: int, h: int) -> IVec2 {
    IVec2 { x: (w / 2) as i32, y: (h / 2) as i32 }
}

/// The channel that receives the `i`-th cell of `shape` on a grid of `nc` channels:
/// the cell's own channel when the shape lists channels, else the only channel,
/// else channels in turn.
pub open spec fn spawn_channel<F>(shape: Shape<F>, i: int, nc: int) -> int {
    if shape.cells_channel@.len() > 0 {
        shape.cells_channel@[i] as int
    } else if nc == 1 {
        0
    } else {
        i % nc
    }
}

/// The grid cell that receives the `i`-th cell of `shape`: its offset from the
/// grid's centre, wrapped around the torus.
pub open spec fn spawn_cell<F>(shape: Shape<F>, i: int, w: int, h: int) -> IVec2 {
    wrap_cell(shifted(grid_center(w, h), shape.cells_pos@[i]), w, h)
}

/// The buffer `data` after writing the first `n` cells of `shape`, in order,
/// centred on a `w` by `h` grid of `nc` channels; cells aimed at a channel the
/// grid does not have are skipped, and a later cell overwrites an earlier one.
pub open spec fn spawned<F>(data: Seq<F>, shape: Shape<F>, w: int, h: int, nc: int, n: int) -> Seq<F>
    decreases n,
{
    if n <= 0 {
        data
    } else {
        let prev = spawned(data, shape, w, h, nc, n - 1);
        let ch = spawn_channel(shape, n - 1, nc);
        if ch < nc {
            let p = spawn_cell(shape, n - 1, w, h);
            prev.update((p.x + p.y * w) * nc + ch, shape.cells_state@[n - 1])
        } else {
            prev
        }
    }
}

/// The buffer position that the `i`-th cell of `shape` is written to, on a
/// `w` by `h` grid of `nc` channels.
pub open spec fn spawn_target<F>(shape: Shape<F>, i: int, w: int, h: int, nc: int) -> int {
    let p = spawn_cell(shape, i, w, h);
    (p.x + p.y * w) * nc + spawn_channel(shape, i, nc)
}

/// Placing a shape changes only the buffer positions that its cells aim at,
/// and keeps the buffer's length; every other value stays as it was (for a
/// freshly zeroed buffer: stays `zero`).
pub proof fn law_spawn_touches_only_targets<F>(data: Seq<F>, shape: Shape<F>, w: int, h: int, nc: int, n: int, j: int)
    requires
        0 <= n,
        0 <= j < data.len(),
        forall|i: int| 0 <= i < n && spawn_channel(shape, i, nc) < nc
            ==> 0 <= #[trigger] spawn_target(shape, i, w, h, nc) < data.len() && spawn_target(shape, i, w, h, nc) != j,
    ensures
        spawned(data, shape, w, h, nc, n).len() == data.len(),
        spawned(data, shape, w, h, nc, n)[j] == data[j],
    decreases n,
{
    if n > 0 {
        law_spawn_touches_only_targets(data, shape, w, h, nc, n - 1, j);
        if spawn_channel(shape, n - 1, nc) < nc {
            assert(spawn_target(shape, n - 1, w, h, nc) != j);
            assert(0 <= spawn_target(shape, n - 1, w, h, nc) < data.len());
        }
    }
}

/// What `spawn_shape` asks of the shape that it places on a grid of `w` by `h` cells.
pub open spec fn spawnable<F>(shape: Shape<F>, w: int, h: int) -> bool {
    let n = shape.cells_state@.len();
    let nc = shape.optimal_rule.num_channels;
    &&& shape.cells_pos@.len() >= n
    &&& (shape.cells_channel@.len() == 0 || shape.cells_channel@.len() >= n)
    &&& (nc == 0 && shape.cells_channel@.len() == 0 ==> n == 0)
    &&& forall|i: int| 0 <= i < n ==> cell_fits(w / 2 + (#[trigger] shape.cells_pos@[i]).x, w)
        && cell_fits(h / 2 + shape.cells_pos@[i].y, h)
}

/// Whether the coordinate `a` fits in an `i32` and wrapping it onto a side of
/// length `n` stays within `i32` too.
pub open spec fn cell_fits(a: int, n: int) -> bool {
    fits_i32(a) && fits_i32(trunc_rem(a, n) + n)
}

/// Turning an index into a cell and back gives the index again, for every
/// index, negative ones included.
pub proof fn law_index_round_trip(idx: i32, w: int)
    requires
        0 < w <= i32::MAX,
    ensures
        cell_to_index(index_to_cell(idx as int, w), w) == idx,
{
    lemma_trunc_rem_bounds(idx as int, w);
    let r = trunc_rem(idx as int, w);
    let q = trunc_div(idx as int, w);
    if idx >= 0 {
        vstd::arithmetic::div_mod::lemma_div_is_ordered_by_denominator(idx as int, 1, w);
    } else {
        vstd::arithmetic::div_mod::lemma_div_is_ordered_by_denominator(-idx, 1, w);
    }
    lemma_trunc_rem_bounds(r, w);
    if r >= 0 {
        vstd::arithmetic::div_mod::lemma_small_mod(r as nat, w as nat);
    } else {
        vstd::arithmetic::div_mod::lemma_small_mod((-r) as nat, w as nat);
    }
    assert(q * w == w * q) by (nonlinear_arith);
}

/// Turning a cell of the grid's columns, on a row that is not negative, into
/// an index and back gives the cell again.
pub proof fn law_cell_round_trip(p: IVec2, w: int)
    requires
        0 < w <= i32::MAX,
        0 <= p.x < w,
        0 <= p.y,
        fits_i32(cell_to_index(p, w)),
    ensures
        index_to_cell(cell_to_index(p, w), w) == p,
{
    vstd::arithmetic::div_mod::lemma_small_mod(p.x as nat, w as nat);
    let idx = cell_to_index(p, w);
    assert(idx == p.x + w * p.y) by (nonlinear_arith)
        requires idx == p.x + p.y * w;
    assert(0 <= p.y * w) by (nonlinear_arith) requires 0 <= p.y, 0 < w;
    vstd::arithmetic::div_mod::lemma_fundamental_div_mod_converse(idx, w, p.y as int, p.x as int);
}

/// Every cell of the grid is its own representative on the torus.
pub proof fn law_wrap_keeps_grid_cells(p: IVec2, w: int, h: int)
    requires
        0 < w,
        0 < h,
        on_grid(p, w, h),
    ensures
        wrap_cell(p, w, h) == p,
{
    vstd::arithmetic::div_mod::lemma_small_mod(p.x as nat, w as nat);
    vstd::arithmetic::div_mod::lemma_small_mod(p.y as nat, h as nat);
}

/// Wrapping a cell twice is wrapping it once.
pub proof fn law_wrap_idempotent(p: IVec2, w: int, h: int)
    requires
        0 < w <= i32::MAX,
        0 < h <= i32::MAX,
    ensures
        wrap_cell(wrap_cell(p, w, h), w, h) == wrap_cell(p, w, h),
{
    law_wrap_keeps_grid_cells(wrap_cell(p, w, h), w, h);
}

/// Cells one period apart, horizontally or vertically, have the same representative.
pub proof fn law_wrap_periodic(p: IVec2, w: int, h: int)
    requires
        0 < w <= i32::MAX,
        0 < h <= i32::MAX,
        fits_i32(p.x + w),
        fits_i32(p.y + h),
    ensures
        wrap_cell(shifted(p, IVec2 { x: w as i32, y: 0 }), w, h) == wrap_cell(p, w, h),
        wrap_cell(shifted(p, IVec2 { x: 0, y: h as i32 }), w, h) == wrap_cell(p, w, h),
{
    vstd::arithmetic::div_mod::lemma_mod_add_multiples_vanish(p.x as int, w);
    vstd::arithmetic::div_mod::lemma_mod_add_multiples_vanish(p.y as int, h);
}

/// The index of a wrapped cell always addresses a cell of the grid.
pub proof fn law_wrapped_index_in_grid(p: IVec2, w: int, h: int)
    requires
        0 < w <= i32::MAX,
        0 < h <= i32::MAX,
    ensures
        0 <= cell_to_index(wrap_cell(p, w, h), w) < w * h,
{
    let q = wrap_cell(p, w, h);
    vstd::arithmetic::div_mod::lemma_small_mod(q.x as nat, w as nat);
    assert(0 <= q.y * w <= (h - 1) * w) by (nonlinear_arith) requires 0 <= q.y < h, w > 0;
    assert((h - 1) * w == w * h - w) by (nonlinear_arith);
}

/// The grid that `pause` makes of `g`.
pub open spec fn paused_toggled<F>(g: Grid<F>) -> Grid<F> {
    Grid { paused: !g.paused, ..g }
}

/// Pausing twice gives back the grid as it was.
pub proof fn law_pause_twice_restores<F>(g: Grid<F>)
    ensures
        paused_toggled(paused_toggled(g)) == g,
{
}

/// Whether the offset `p` lies in the punctured disc of radius `r`:
/// not the centre, and at Euclidean distance at most `r` from it.
pub open spec fn in_disc(p: IVec2, r: int) -> bool {
    0 < p.x * p.x + p.y * p.y <= r * r
}

/// Lexicographic order on offsets, first by `x`, then by `y`.
pub open spec fn lex_lt(a: IVec2, b: IVec2) -> bool {
    a.x < b.x || (a.x == b.x && a.y < b.y)
}

proof fn lemma_disc_bounds(p: IVec2, r: int)
    requires
        r >= 1,
        in_disc(p, r),
    ensures
        -r <= p.x <= r,
        -r <= p.y <= r,
{
    let x = p.x as int;
    let y = p.y as int;
    assert(x * x >= 0 && y * y >= 0) by (nonlinear_arith);
    if x > r || x < -r {
        assert(x * x > r * r) by (nonlinear_arith) requires x > r || x < -r, r >= 1;
    }
    if y > r || y < -r {
        assert(y * y > r * r) by (nonlinear_arith) requires y > r || y < -r, r >= 1;
    }
}

/// The neighbourhood of a kernel of radius `r`: every offset of the punctured
/// disc of radius `r`, each once, in the order in which the kernel cache lists
/// them (increasing `x`, then increasing `y`).
pub fn kernel_offsets(r: i32) -> (v: Vec<IVec2>)
    requires
        1 <= r < i32::MAX,
    ensures
        forall|j: int| 0 <= j < v@.len() ==> in_disc(#[trigger] v@[j], r as int),
        forall|j: int, k: int| 0 <= j < k < v@.len() ==> lex_lt(#[trigger] v@[j], #[trigger] v@[k]),
        forall|p: IVec2| in_disc(p, r as int) ==> #[trigger] v@.contains(p),
{
    let mut v: Vec<IVec2> = Vec::new();
    let mut x: i32 = -r;
    assert forall|p: IVec2| in_disc(p, r as int) && p.x < x implies #[trigger] v@.contains(p) by {
        lemma_disc_bounds(p, r as int);
    }
    while x <= r
        invariant
            1 <= r < i32::MAX,
            -r <= x <= r + 1,
            forall|j: int| 0 <= j < v@.len() ==> in_disc(#[trigger] v@[j], r as int) && v@[j].x < x,
            forall|j: int, k: int| 0 <= j < k < v@.len() ==> lex_lt(#[trigger] v@[j], #[trigger] v@[k]),
            forall|p: IVec2| in_disc(p, r as int) && p.x < x ==> #[trigger] v@.contains(p),
        decreases r + 1 - x,
    {
        let mut y: i32 = -r;
        assert forall|p: IVec2| in_disc(p, r as int) && lex_lt(p, IVec2 { x, y }) implies #[trigger] v@.contains(p) by {
            lemma_disc_bounds(p, r as int);
        }
        while y <= r
            invariant
                1 <= r < i32::MAX,
                -r <= x <= r,
                -r <= y <= r + 1,
                forall|j: int| 0 <= j < v@.len() ==> in_disc(#[trigger] v@[j], r as int)
                    && lex_lt(v@[j], IVec2 { x, y }),
                forall|j: int, k: int| 0 <= j < k < v@.len() ==> lex_lt(#[trigger] v@[j], #[trigger] v@[k]),
                forall|p: IVec2| in_disc(p, r as int) && lex_lt(p, IVec2 { x, y }) ==> #[trigger] v@.contains(p),
            decreases r + 1 - y,
        {
            assert(0 <= x * x <= r * r && 0 <= y * y <= r * r && r * r <= 4611686009837453316) by (nonlinear_arith)
                requires -r <= x <= r, -r <= y <= r, 1 <= r <= 2147483646;
            let xl = x as i64;
            let yl = y as i64;
            let rl = r as i64;
            let d2 = xl * xl + yl * yl;
            let ghost prev = v@;
            let cur = IVec2::new(x, y);
            if d2 <= rl * rl && d2 != 0 {
                v.push(cur);
                assert(v@[v@.len() - 1] == cur);
            }
            let ghost next = IVec2 { x, y: (y + 1) as i32 };
            assert forall|p: IVec2| in_disc(p, r as int) && lex_lt(p, next) implies #[trigger] v@.contains(p) by {
                if p == cur {
                    assert(v@[v@.len() - 1] == cur);
                } else {
                    assert(lex_lt(p, IVec2 { x, y }));
                    assert(prev.contains(p));
                    let k = choose|k: int| 0 <= k < prev.len() && prev[k] == p;
                    assert(v@[k] == p);
                }
            }
            y = y + 1;
        }
        assert forall|p: IVec2| in_disc(p, r as int) && p.x < x + 1 implies #[trigger] v@.contains(p) by {
            lemma_disc_bounds(p, r as int);
            if p.x == x {
                assert(lex_lt(p, IVec2 { x, y }));
            } else {
                assert(lex_lt(p, IVec2 { x, y }));
            }
        }
        x = x + 1;
    }
    assert forall|p: IVec2| in_disc(p, r as int) implies #[trigger] v@.contains(p) by {
        lemma_disc_bounds(p, r as int);
    }
    v
}

} // verus!



