use vstd::prelude::*;

verus! {

/// Product of the first `k` extents: how far apart, in the flat store, two
/// coordinates lie that differ by one along axis `k`.
pub open spec fn stride(dim: Seq<usize>, k: nat) -> int
    decreases k,
{
    if k == 0 {
        1
    } else {
        stride(dim, (k - 1) as nat) * dim[k - 1] as int
    }
}

/// Position in the flat store of the first `k` axes of `loc`.
pub open spec fn flat_index(dim: Seq<usize>, loc: Seq<usize>, k: nat) -> int
    decreases k,
{
    if k == 0 {
        0
    } else {
        flat_index(dim, loc, (k - 1) as nat) + loc[k - 1] as int * stride(dim, (k - 1) as nat)
    }
}

/// Every component of `loc` lies below the extent of its axis.
pub open spec fn in_bounds(dim: Seq<usize>, loc: Seq<usize>) -> bool {
    &&& loc.len() == dim.len()
    &&& forall|i: int| 0 <= i < dim.len() ==> loc[i] < dim[i]
}

proof fn lemma_stride_positive(dim: Seq<usize>, k: nat)
    requires
        k <= dim.len(),
        forall|i: int| 0 <= i < dim.len() ==> dim[i] > 0,
    ensures
        stride(dim, k) >= 1,
    decreases k,
{
    if k > 0 {
        lemma_stride_positive(dim, (k - 1) as nat);
        let s = stride(dim, (k - 1) as nat);
        let d = dim[k - 1] as int;
        assert(s * d >= 1) by (nonlinear_arith)
            requires
                s >= 1,
                d >= 1,
        ;
    }
}

proof fn lemma_stride_monotone(dim: Seq<usize>, j: nat, k: nat)
    requires
        j <= k <= dim.len(),
        forall|i: int| 0 <= i < dim.len() ==> dim[i] > 0,
    ensures
        stride(dim, j) <= stride(dim, k),
    decreases k,
{
    if j < k {
        lemma_stride_monotone(dim, j, (k - 1) as nat);
        lemma_stride_positive(dim, (k - 1) as nat);
        let s = stride(dim, (k - 1) as nat);
        let d = dim[k - 1] as int;
        assert(s <= s * d) by (nonlinear_arith)
            requires
                s >= 1,
                d >= 1,
        ;
    }
}

proof fn lemma_stride_zero(dim: Seq<usize>, k: nat, i: int)
    requires
        0 <= i < k <= dim.len(),
        dim[i] == 0,
    ensures
        stride(dim, k) == 0,
    decreases k,
{
    if i < k - 1 {
        lemma_stride_zero(dim, (k - 1) as nat, i);
    }
}

/// With two axes the store is row-major: `loc[0] + dim[0] * loc[1]`, and it
/// holds `dim[0] * dim[1]` elements.
pub proof fn lemma_two_axes(dim: Seq<usize>, loc: Seq<usize>)
    requires
        dim.len() == 2,
        loc.len() == 2,
    ensures
        stride(dim, 2) == dim[0] * dim[1],
        flat_index(dim, loc, 2) == loc[0] + dim[0] * loc[1],
{
    assert(stride(dim, 0) == 1);
    assert(stride(dim, 1) == dim[0]);
    assert(flat_index(dim, loc, 0) == 0);
    assert(flat_index(dim, loc, 1) == loc[0]);
    assert(loc[1] * dim[0] == dim[0] * loc[1]) by (nonlinear_arith);
}

/// A dense array of `N` axes held in one flat store.
pub struct Matrix<T, const N: usize> where T: Copy + Default {
    dim: [usize; N],
    elems: Vec<T>,
}

impl<T, const N: usize> Matrix<T, N> where T: Copy + Default {
    /// The extent of each axis.
    pub closed spec fn dims(&self) -> Seq<usize> {
        self.dim@
    }

    /// The flat store.
    pub closed spec fn cells(&self) -> Seq<T> {
        self.elems@
    }

    /// The store holds exactly one element per coordinate.
    pub open spec fn wf(&self) -> bool {
        &&& self.dims().len() == N
        &&& self.cells().len() == stride(self.dims(), N as nat)
    }

    /// The element at an in-bounds coordinate.
    pub open spec fn at(&self, loc: Seq<usize>) -> T {
        self.cells()[flat_index(self.dims(), loc, N as nat)]
    }

    /// Builds a matrix with the given extents, every element `T::default()`.
    pub fn new(dim: [usize; N]) -> (r: Self)
        requires
            stride(dim@, N as nat) <= usize::MAX,
        ensures
            r.wf(),
            r.dims() == dim@,
            forall|i: int|
                0 <= i < r.cells().len() ==> call_ensures(T::default, (), #[trigger] r.cells()[i]),
    {
        let mut has_zero = false;
        let mut k: usize = 0;
        while k < N
            invariant
                k <= N,
                dim@.len() == N,
                has_zero == exists|i: int| 0 <= i < k && dim@[i] == 0,
            decreases N - k,
        {
            if dim[k] == 0 {
                has_zero = true;
            }
            k = k + 1;
        }
        let mut size: usize = 1;
        if has_zero {
            proof {
                let i = choose|i: int| 0 <= i < N && dim@[i] == 0;
                lemma_stride_zero(dim@, N as nat, i);
            }
            size = 0;
        } else {
            k = 0;
            while k < N
                invariant
                    k <= N,
                    dim@.len() == N,
                    forall|i: int| 0 <= i < N ==> dim@[i] > 0,
                    size == stride(dim@, k as nat),
                    stride(dim@, N as nat) <= usize::MAX,
                decreases N - k,
            {
                proof {
                    lemma_stride_monotone(dim@, (k + 1) as nat, N as nat);
                }
                size = size * dim[k];
                k = k + 1;
            }
        }
        let d = T::default();
        let mut elems: Vec<T> = Vec::new();
        let mut i: usize = 0;
        while i < size
            invariant
                i <= size,
                elems@.len() == i,
                call_ensures(T::default, (), d),
                forall|j: int| 0 <= j < i ==> elems@[j] == d,
            decreases size - i,
        {
            elems.push(d);
            i = i + 1;
        }
        Matrix { dim, elems }
    }

    fn index(&self, loc: [usize; N]) -> (r: usize)
        requires
            self.wf(),
            in_bounds(self.dims(), loc@),
        ensures
            r == flat_index(self.dims(), loc@, N as nat),
            r < self.cells().len(),
    {
        let ghost dims = self.dims();
        proof {
            assert forall|i: int| 0 <= i < dims.len() implies dims[i] > 0 by {
                assert(loc@[i] < dims[i]);
            }
            lemma_stride_positive(dims, N as nat);
            assert(stride(dims, 0) == 1);
        }
        let len = self.elems.len();
        let mut index: usize = 0;
        let mut step: usize = 1;
        let mut k: usize = 0;
        while k < N
            invariant
                self.wf(),
                dims == self.dims(),
                in_bounds(dims, loc@),
                forall|i: int| 0 <= i < dims.len() ==> dims[i] > 0,
                k <= N,
                index == flat_index(dims, loc@, k as nat),
                step == stride(dims, k as nat),
                index < step,
                step <= self.cells().len(),
                len == self.cells().len(),
            decreases N - k,
        {
            proof {
                lemma_stride_monotone(dims, (k + 1) as nat, N as nat);
            }
            let ghost s = step as int;
            let ghost l = loc@[k as int] as int;
            let ghost d = dims[k as int] as int;
            assert(index + l * s < s * d) by (nonlinear_arith)
                requires
                    index < s,
                    l < d,
                    l >= 0,
            ;
            assert(stride(dims, (k + 1) as nat) == s * d);
            assert(s * d <= self.cells().len());
            assert(l * s <= s * d) by (nonlinear_arith)
                requires
                    l < d,
                    l >= 0,
                    s >= 0,
            ;
            let lk = loc[k];
            assert(lk * step <= len);
            let prod = lk * step;
            assert(index + prod < len);
            index = index + prod;
            step = step * self.dim[k];
            k = k + 1;
        }
        index
    }

    /// The element at `loc`, which must lie within the extents.
    pub fn get(&self, loc: [usize; N]) -> (r: T)
        requires
            self.wf(),
            in_bounds(self.dims(), loc@),
        ensures
            r == self.at(loc@),
    {
        self.elems[self.index(loc)]
    }

    /// Replaces the element at `loc`, which must lie within the extents.
    pub fn set(&mut self, loc: [usize; N], elem: T)
        requires
            old(self).wf(),
            in_bounds(old(self).dims(), loc@),
        ensures
            final(self).wf(),
            final(self).dims() == old(self).dims(),
            final(self).cells() == old(self).cells().update(
                flat_index(old(self).dims(), loc@, N as nat),
                elem,
            ),
    {
        let index = self.index(loc);
        self.elems.set(index, elem);
    }

    /// The extent of each axis.
    pub fn dim(&self) -> (r: [usize; N])
        ensures
            r@ == self.dims(),
    {
        self.dim
    }
}

} // verus!
