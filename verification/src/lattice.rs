//! An arena-style container for per-site values: one owned contiguous
//! row-major buffer addressed by (z, y, x), mutated only through this
//! module, read by value or through immutable snapshots.

use vstd::prelude::*;

use crate::grid::Dims;
use crate::grid::Site;
use crate::grid::flat_index;
use crate::grid::flat_spec;
use crate::grid::lemma_flat_in_range;
use crate::grid::lemma_flat_injective;

verus! {

/// Why a lattice could not be built.
#[derive(Clone, Copy, PartialEq, Eq, Structural, Debug)]
pub enum LatticeError {
    /// Some axis has extent zero.
    EmptyAxis,
    /// The site count does not fit in a `usize`.
    TooLarge,
    /// The number of seed values differs from the site count.
    CountMismatch,
}

/// A fixed-size three-dimensional grid of per-site values. The dimensions
/// are chosen at construction and immutable thereafter; the buffer length
/// always equals the site count.
#[derive(Debug)]
pub struct Lattice<T> {
    dims: Dims,
    data: Vec<T>,
}

impl<T> View for Lattice<T> {
    type V = Seq<T>;

    closed spec fn view(&self) -> Seq<T> {
        self.data@
    }
}

impl<T> Lattice<T> {
    /// The dimensions the lattice was built with.
    pub closed spec fn dims_spec(self) -> Dims {
        self.dims
    }

    /// The dimensions are valid and the buffer length matches the site
    /// count.
    pub open spec fn wf(self) -> bool {
        self.dims_spec().valid() && self@.len() == self.dims_spec().count_spec()
    }

    /// The value stored at an in-bounds site.
    pub open spec fn at_spec(self, s: Site) -> T {
        self@[flat_spec(self.dims_spec(), s)]
    }

    /// Builds a lattice of the given extents over the given seed values,
    /// which must number exactly one per site. Fails exactly when an axis
    /// is empty, the site count overflows, or the seed count is wrong.
    pub fn try_new(nz: usize, ny: usize, nx: usize, seed: Vec<T>) -> (r: Result<
        Lattice<T>,
        LatticeError,
    >)
        ensures
            match r {
                Ok(lat) => {
                    &&& nz >= 1 && ny >= 1 && nx >= 1
                    &&& nz * ny * nx <= usize::MAX
                    &&& seed@.len() == nz * ny * nx
                    &&& lat.wf()
                    &&& lat.dims_spec() == (Dims { nz, ny, nx })
                    &&& lat@ == seed@
                },
                Err(LatticeError::EmptyAxis) => nz == 0 || ny == 0 || nx == 0,
                Err(LatticeError::TooLarge) => {
                    &&& nz >= 1 && ny >= 1 && nx >= 1
                    &&& nz * ny * nx > usize::MAX
                },
                Err(LatticeError::CountMismatch) => {
                    &&& nz >= 1 && ny >= 1 && nx >= 1
                    &&& nz * ny * nx <= usize::MAX
                    &&& seed@.len() != nz * ny * nx
                },
            },
    {
        if nz == 0 || ny == 0 || nx == 0 {
            return Err(LatticeError::EmptyAxis);
        }
        let zy: usize = match nz.checked_mul(ny) {
            Some(v) => v,
            None => {
                proof {
                    assert(nz * ny <= nz * ny * nx) by (nonlinear_arith)
                        requires nz >= 0, ny >= 0, nx >= 1;
                }
                return Err(LatticeError::TooLarge);
            },
        };
        let count: usize = match zy.checked_mul(nx) {
            Some(v) => v,
            None => {
                return Err(LatticeError::TooLarge);
            },
        };
        if seed.len() != count {
            return Err(LatticeError::CountMismatch);
        }
        Ok(Lattice { dims: Dims { nz, ny, nx }, data: seed })
    }

    /// The dimensions the lattice was built with.
    pub fn dims(&self) -> (d: Dims)
        ensures
            d == self.dims_spec(),
    {
        self.dims
    }

    /// Number of sites.
    pub fn len(&self) -> (n: usize)
        ensures
            n == self@.len(),
    {
        self.data.len()
    }

    /// The value at an in-bounds site.
    pub fn get(&self, s: Site) -> (v: &T)
        requires
            self.wf(),
            s.in_bounds(self.dims_spec()),
        ensures
            *v == self.at_spec(s),
    {
        let i: usize = flat_index(self.dims, s);
        &self.data[i]
    }

    /// Stores a value at an in-bounds site; every other site keeps its
    /// value and the dimensions are unchanged.
    pub fn set(&mut self, s: Site, value: T)
        requires
            old(self).wf(),
            s.in_bounds(old(self).dims_spec()),
        ensures
            final(self).wf(),
            final(self).dims_spec() == old(self).dims_spec(),
            final(self)@ == old(self)@.update(flat_spec(old(self).dims_spec(), s), value),
            final(self).at_spec(s) == value,
            forall|t: Site|
                t.in_bounds(old(self).dims_spec()) && t != s ==> final(self).at_spec(t) == old(
                    self,
                ).at_spec(t),
    {
        let i: usize = flat_index(self.dims, s);
        self.data[i] = value;
        proof {
            let d = old(self).dims_spec();
            assert forall|t: Site| t.in_bounds(d) && t != s implies self.at_spec(t) == old(
                self,
            ).at_spec(t) by {
                lemma_flat_in_range(d, t);
                if flat_spec(d, t) == flat_spec(d, s) {
                    lemma_flat_injective(d, t, s);
                }
            }
        }
    }

    /// Replaces the whole buffer at once: the atomic per-timestep commit.
    /// The replacement must hold exactly one value per site.
    pub fn commit(&mut self, data: Vec<T>)
        requires
            old(self).wf(),
            data@.len() == old(self)@.len(),
        ensures
            final(self).wf(),
            final(self).dims_spec() == old(self).dims_spec(),
            final(self)@ == data@,
    {
        self.data = data;
    }
}

impl<T: Copy> Lattice<T> {
    /// Builds a lattice with every site holding the same value.
    pub fn new_fill(d: Dims, value: T) -> (lat: Lattice<T>)
        requires
            d.valid(),
        ensures
            lat.wf(),
            lat.dims_spec() == d,
            forall|k: int| 0 <= k < lat@.len() ==> lat@[k] == value,
            forall|s: Site| s.in_bounds(d) ==> lat.at_spec(s) == value,
    {
        let count: usize = d.site_count();
        let mut data: Vec<T> = Vec::new();
        let mut k: usize = 0;
        while k < count
            invariant
                k <= count,
                data@.len() == k,
                forall|j: int| 0 <= j < k ==> data@[j] == value,
            decreases count - k,
        {
            data.push(value);
            k = k + 1;
        }
        let lat = Lattice { dims: d, data };
        proof {
            assert forall|s: Site| s.in_bounds(d) implies lat.at_spec(s) == value by {
                lemma_flat_in_range(d, s);
            }
        }
        lat
    }

    /// An independent copy of the lattice: later mutation of either side
    /// leaves the other untouched.
    pub fn snapshot(&self) -> (c: Lattice<T>)
        requires
            self.wf(),
        ensures
            c.wf(),
            c.dims_spec() == self.dims_spec(),
            c@ == self@,
    {
        let n: usize = self.data.len();
        let mut data: Vec<T> = Vec::new();
        let mut k: usize = 0;
        while k < n
            invariant
                k <= n,
                n == self.data@.len(),
                data@.len() == k,
                forall|j: int| 0 <= j < k ==> data@[j] == self.data@[j],
            decreases n - k,
        {
            data.push(self.data[k]);
            k = k + 1;
        }
        proof {
            assert(data@ =~= self.data@);
        }
        Lattice { dims: self.dims, data }
    }
}

} // verus!
