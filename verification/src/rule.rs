use vstd::prelude::*;

verus! {

/// Shape of the radial profile of a kernel.
#[derive(Clone, Copy, Debug, PartialEq, Eq, Structural)]
pub enum KernelKind {
    Bump4,
    Quad4,
}

impl Default for KernelKind {
    fn default() -> (r: Self)
        ensures
            r == KernelKind::Bump4,
    {
        KernelKind::Bump4
    }
}

/// How the contributions of several kernels that feed one channel are combined.
#[derive(Clone, Copy, Debug, PartialEq, Eq, Structural)]
pub enum RuleMode {
    Sum,
    Multiply,
}

impl Default for RuleMode {
    fn default() -> (r: Self)
        ensures
            r == RuleMode::Sum,
    {
        RuleMode::Sum
    }
}

/// Whether cell states range over a continuum or a finite set.
#[derive(Clone, Copy, Debug, PartialEq, Eq, Structural)]
#[allow(non_camel_case_types)]
pub enum StateType {
    CONTINUOUS,
    DISCRETE,
}

/// One convolution kernel of a rule, reading channel `c0` and feeding channel `c1`.
/// `F` is the numeric type of the real-valued parameters.
#[derive(Clone, Debug)]
pub struct KernelDef<F> {
    pub mu: F,
    pub sigma: F,
    pub base_radius: i32,
    pub relative_radius: F,
    pub height: F,
    pub peaks: Vec<F>,
    pub c0: usize,
    pub c1: usize,
    pub use_target: bool,
    pub polynomial: bool,
    pub alpha: F,
    pub kernel_kind: KernelKind,
}

impl<F> KernelDef<F> {
    /// The same kernel with another radial profile.
    pub fn with_kernel_kind(self, kernel_kind: KernelKind) -> (r: Self)
        ensures
            r == (KernelDef { kernel_kind, ..self }),
    {
        let mut k = self;
        k.kernel_kind = kernel_kind;
        k
    }

    /// The same kernel with another polynomial exponent.
    pub fn with_alpha(self, alpha: F) -> (r: Self)
        ensures
            r == (KernelDef { alpha, ..self }),
    {
        let mut k = self;
        k.alpha = alpha;
        k
    }

    /// The same kernel, switched to or from target (asymptotic) mode.
    pub fn with_target(self, use_target: bool) -> (r: Self)
        ensures
            r == (KernelDef { use_target, ..self }),
    {
        let mut k = self;
        k.use_target = use_target;
        k
    }
}

/// An element-by-element copy of `v`.
pub fn copy_values<F: Copy>(v: &Vec<F>) -> (r: Vec<F>)
    ensures
        r@ == v@,
{
    let mut r: Vec<F> = Vec::new();
    let n = v.len();
    let mut i: usize = 0;
    while i < n
        invariant
            n == v@.len(),
            i <= n,
            r@ == v@.take(i as int),
        decreases n - i,
    {
        r.push(v[i]);
        assert(v@.take(i as int).push(v@[i as int]) =~= v@.take(i + 1));
        i = i + 1;
    }
    assert(v@.take(n as int) =~= v@);
    r
}

/// An update rule: its kernels, the number of channels and the time step.
#[derive(Clone, Debug)]
pub struct Rule<F> {
    pub state_type: StateType,
    pub delta: F,
    pub kernels: Vec<KernelDef<F>>,
    pub num_channels: usize,
    pub mode: RuleMode,
}

impl<F> Rule<F> {
    /// Indices of the kernels that feed channel `c`, in the order in which
    /// a generation step combines their contributions.
    pub fn kernels_into_channel(&self, c: usize) -> (r: Vec<usize>)
        ensures
            forall|j: int| 0 <= j < r@.len() ==> #[trigger] r@[j] < self.kernels@.len() && self.kernels@[r@[j] as int].c1 == c,
            forall|j: int, k: int| 0 <= j < k < r@.len() ==> r@[j] < r@[k],
            forall|i: int| 0 <= i < self.kernels@.len() && #[trigger] self.kernels@[i].c1 == c ==> r@.contains(i as usize),
    {
        let mut r: Vec<usize> = Vec::new();
        let n = self.kernels.len();
        let mut i: usize = 0;
        while i < n
            invariant
                n == self.kernels@.len(),
                i <= n,
                forall|j: int| 0 <= j < r@.len() ==> #[trigger] r@[j] < i && self.kernels@[r@[j] as int].c1 == c,
                forall|j: int, k: int| 0 <= j < k < r@.len() ==> r@[j] < r@[k],
                forall|t: int| 0 <= t < i && #[trigger] self.kernels@[t].c1 == c ==> r@.contains(t as usize),
            decreases n - i,
        {
            let ghost prev = r@;
            if self.kernels[i].c1 == c {
                r.push(i);
                assert(r@[r@.len() - 1] == i);
            }
            assert forall|t: int| 0 <= t < i + 1 && #[trigger] self.kernels@[t].c1 == c implies r@.contains(t as usize) by {
                if t == i {
                    assert(r@[r@.len() - 1] == i);
                } else {
                    assert(prev.contains(t as usize));
                    let k = choose|k: int| 0 <= k < prev.len() && prev[k] == t as usize;
                    assert(r@[k] == t as usize);
                }
            }
            i = i + 1;
        }
        r
    }
}

} // verus!
