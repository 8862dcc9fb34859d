//! Lattice dimensions, site coordinates, periodic wraparound arithmetic,
//! flat-buffer addressing and nearest-neighbor enumeration.

use vstd::multiset::Multiset;
use vstd::prelude::*;

verus! {

/// Extents of the three lattice axes, in (z, y, x) order.
///
/// An axis of extent 1 is degenerate: it is treated as absent for
/// neighbor-coupling purposes and contributes no neighbor pair.
#[derive(Clone, Copy, PartialEq, Eq, Structural, Debug)]
pub struct Dims {
    pub nz: usize,
    pub ny: usize,
    pub nx: usize,
}

/// A site coordinate inside a lattice, in (z, y, x) order.
#[derive(Clone, Copy, PartialEq, Eq, Structural, Debug)]
pub struct Site {
    pub z: usize,
    pub y: usize,
    pub x: usize,
}

impl Dims {
    /// Every axis holds at least one site and the total site count fits in
    /// a `usize`.
    pub open spec fn valid(self) -> bool {
        &&& self.nz >= 1
        &&& self.ny >= 1
        &&& self.nx >= 1
        &&& self.nz * self.ny * self.nx <= usize::MAX
    }

    /// Total number of sites on the lattice.
    pub open spec fn count_spec(self) -> int {
        self.nz * self.ny * self.nx
    }

    /// The z axis wraps around only if it holds more than one site.
    pub open spec fn z_periodic_spec(self) -> bool {
        self.nz > 1
    }

    /// The y axis wraps around only if it holds more than one site.
    pub open spec fn y_periodic_spec(self) -> bool {
        self.ny > 1
    }

    /// The x axis wraps around only if it holds more than one site.
    pub open spec fn x_periodic_spec(self) -> bool {
        self.nx > 1
    }

    /// Total number of sites on the lattice.
    pub fn site_count(&self) -> (n: usize)
        requires
            self.valid(),
        ensures
            n == self.count_spec(),
    {
        proof {
            assert(self.nz * self.ny <= self.nz * self.ny * self.nx) by (nonlinear_arith)
                requires self.nz >= 0, self.ny >= 0, self.nx >= 1;
        }
        self.nz * self.ny * self.nx
    }

    /// Whether stepping along z wraps around.
    pub fn z_periodic(&self) -> (r: bool)
        ensures
            r == self.z_periodic_spec(),
    {
        self.nz > 1
    }

    /// Whether stepping along y wraps around.
    pub fn y_periodic(&self) -> (r: bool)
        ensures
            r == self.y_periodic_spec(),
    {
        self.ny > 1
    }

    /// Whether stepping along x wraps around.
    pub fn x_periodic(&self) -> (r: bool)
        ensures
            r == self.x_periodic_spec(),
    {
        self.nx > 1
    }
}

impl Site {
    /// The coordinate lies inside a lattice of the given dimensions.
    pub open spec fn in_bounds(self, d: Dims) -> bool {
        self.z < d.nz && self.y < d.ny && self.x < d.nx
    }
}

/// One periodic step in the positive direction along an axis of extent `n`.
pub open spec fn wrap_inc_spec(i: usize, n: usize) -> usize {
    if i + 1 == n {
        0usize
    } else {
        (i + 1) as usize
    }
}

/// One periodic step in the negative direction along an axis of extent `n`.
pub open spec fn wrap_dec_spec(i: usize, n: usize) -> usize {
    if i == 0 {
        (n - 1) as usize
    } else {
        (i - 1) as usize
    }
}

/// One periodic step in the positive direction: the successor coordinate,
/// wrapped modulo the axis extent.
pub fn wrap_inc(i: usize, n: usize) -> (r: usize)
    requires
        1 <= n,
        i < n,
    ensures
        r == wrap_inc_spec(i, n),
        r == (i + 1) % (n as int),
        r < n,
{
    proof {
        if i + 1 == n {
            vstd::arithmetic::div_mod::lemma_mod_self_0(n as int);
        } else {
            vstd::arithmetic::div_mod::lemma_small_mod((i + 1) as nat, n as nat);
        }
    }
    if i + 1 == n {
        0
    } else {
        i + 1
    }
}

/// One periodic step in the negative direction: the predecessor coordinate,
/// wrapped modulo the axis extent.
pub fn wrap_dec(i: usize, n: usize) -> (r: usize)
    requires
        1 <= n,
        i < n,
    ensures
        r == wrap_dec_spec(i, n),
        r == (i + n - 1) % (n as int),
        r < n,
{
    proof {
        if i == 0 {
            vstd::arithmetic::div_mod::lemma_small_mod((n - 1) as nat, n as nat);
        } else {
            vstd::arithmetic::div_mod::lemma_mod_multiples_vanish(1, i - 1, n as int);
            vstd::arithmetic::div_mod::lemma_small_mod((i - 1) as nat, n as nat);
        }
    }
    if i == 0 {
        n - 1
    } else {
        i - 1
    }
}

/// Position of a site in the flat row-major buffer: z varies slowest,
/// x fastest.
pub open spec fn flat_spec(d: Dims, s: Site) -> int {
    s.z * d.ny * d.nx + s.y * d.nx + s.x
}

/// The flat position of an in-bounds site lies inside the buffer.
pub proof fn lemma_flat_in_range(d: Dims, s: Site)
    requires
        d.valid(),
        s.in_bounds(d),
    ensures
        0 <= flat_spec(d, s) < d.count_spec(),
{
    assert(s.z * d.ny * d.nx + s.y * d.nx + s.x < d.nz * d.ny * d.nx) by (nonlinear_arith)
        requires
            s.z < d.nz,
            s.y < d.ny,
            s.x < d.nx,
            s.z >= 0,
            s.y >= 0,
            s.x >= 0;
}

/// Distinct in-bounds sites occupy distinct flat positions.
pub proof fn lemma_flat_injective(d: Dims, a: Site, b: Site)
    requires
        d.valid(),
        a.in_bounds(d),
        b.in_bounds(d),
        flat_spec(d, a) == flat_spec(d, b),
    ensures
        a == b,
{
    let nx: int = d.nx as int;
    let ny: int = d.ny as int;
    let a1: int = a.z as int;
    let a2: int = a.y as int;
    let a3: int = a.x as int;
    let b1: int = b.z as int;
    let b2: int = b.y as int;
    let b3: int = b.x as int;
    assert(a1 == b1 && a2 == b2 && a3 == b3) by (nonlinear_arith)
        requires
            a1 * ny * nx + a2 * nx + a3 == b1 * ny * nx + b2 * nx + b3,
            0 <= a2 < ny,
            0 <= a3 < nx,
            0 <= b2 < ny,
            0 <= b3 < nx,
            0 <= a1,
            0 <= b1;
}

/// Flat row-major position of an in-bounds site.
pub fn flat_index(d: Dims, s: Site) -> (i: usize)
    requires
        d.valid(),
        s.in_bounds(d),
    ensures
        i == flat_spec(d, s),
        i < d.count_spec(),
{
    proof {
        lemma_flat_in_range(d, s);
        assert(s.z * d.ny <= d.nz * d.ny * d.nx) by (nonlinear_arith)
            requires s.z < d.nz, s.y < d.ny, s.x < d.nx, d.nx >= 1, d.ny >= 1, s.z >= 0;
    }
    s.z * d.ny * d.nx + s.y * d.nx + s.x
}

/// The site stored at a given flat buffer position: inverse of `flat_index`.
pub fn site_of_index(d: Dims, i: usize) -> (s: Site)
    requires
        d.valid(),
        i < d.count_spec(),
    ensures
        s.in_bounds(d),
        flat_spec(d, s) == i,
{
    let x: usize = i % d.nx;
    let rest: usize = i / d.nx;
    let y: usize = rest % d.ny;
    let z: usize = rest / d.ny;
    proof {
        let nx: int = d.nx as int;
        let ny: int = d.ny as int;
        let nz: int = d.nz as int;
        let ii: int = i as int;
        let ri: int = rest as int;
        let zi: int = z as int;
        let yi: int = y as int;
        let xi: int = x as int;
        vstd::arithmetic::div_mod::lemma_fundamental_div_mod(ii, nx);
        vstd::arithmetic::div_mod::lemma_mod_bound(ii, nx);
        vstd::arithmetic::div_mod::lemma_fundamental_div_mod(ri, ny);
        vstd::arithmetic::div_mod::lemma_mod_bound(ri, ny);
        assert(ii == nx * ri + xi);
        assert(ri == ny * zi + yi);
        assert(ri < nz * ny) by (nonlinear_arith)
            requires
                ii < nz * ny * nx,
                ii == nx * ri + xi,
                0 <= xi,
                nx >= 1,
                ri >= 0;
        assert(zi < nz) by (nonlinear_arith)
            requires
                ri < nz * ny,
                ri == ny * zi + yi,
                0 <= yi,
                ny >= 1,
                zi >= 0;
        assert(zi * ny * nx + yi * nx + xi == ii) by (nonlinear_arith)
            requires
                ri == ny * zi + yi,
                ii == nx * ri + xi;
    }
    Site { z, y, x }
}

/// Every site of the lattice, in sweep order: z varies slowest, x fastest,
/// so the site at position k of the result occupies position k of the flat
/// buffer.
pub fn all_sites(d: Dims) -> (v: Vec<Site>)
    requires
        d.valid(),
    ensures
        v@.len() == d.count_spec(),
        forall|k: int|
            0 <= k < v@.len() ==> (#[trigger] v@[k]).in_bounds(d) && flat_spec(d, v@[k]) == k,
        forall|s: Site| #[trigger] s.in_bounds(d) ==> v@[flat_spec(d, s)] == s,
{
    let count: usize = d.site_count();
    let mut v: Vec<Site> = Vec::new();
    let mut i: usize = 0;
    while i < count
        invariant
            i <= count,
            count == d.count_spec(),
            d.valid(),
            v@.len() == i,
            forall|k: int|
                0 <= k < i ==> (#[trigger] v@[k]).in_bounds(d) && flat_spec(d, v@[k]) == k,
        decreases count - i,
    {
        v.push(site_of_index(d, i));
        i = i + 1;
    }
    proof {
        assert forall|s: Site| #[trigger] s.in_bounds(d) implies v@[flat_spec(d, s)] == s by {
            lemma_flat_in_range(d, s);
            lemma_flat_injective(d, v@[flat_spec(d, s)], s);
        }
    }
    v
}

/// The site one periodic step down along z.
pub open spec fn z_step_down(d: Dims, s: Site) -> Site {
    Site { z: wrap_dec_spec(s.z, d.nz), y: s.y, x: s.x }
}

/// The site one periodic step up along z.
pub open spec fn z_step_up(d: Dims, s: Site) -> Site {
    Site { z: wrap_inc_spec(s.z, d.nz), y: s.y, x: s.x }
}

/// The site one periodic step down along y.
pub open spec fn y_step_down(d: Dims, s: Site) -> Site {
    Site { z: s.z, y: wrap_dec_spec(s.y, d.ny), x: s.x }
}

/// The site one periodic step up along y.
pub open spec fn y_step_up(d: Dims, s: Site) -> Site {
    Site { z: s.z, y: wrap_inc_spec(s.y, d.ny), x: s.x }
}

/// The site one periodic step down along x.
pub open spec fn x_step_down(d: Dims, s: Site) -> Site {
    Site { z: s.z, y: s.y, x: wrap_dec_spec(s.x, d.nx) }
}

/// The site one periodic step up along x.
pub open spec fn x_step_up(d: Dims, s: Site) -> Site {
    Site { z: s.z, y: s.y, x: wrap_inc_spec(s.x, d.nx) }
}

/// The nearest neighbors of a site, in sweep order: the ±1 steps along z,
/// then along y, then along x, each wrapped periodically, with the negative
/// step first. A degenerate axis (extent 1) contributes no pair, so the list
/// holds between 0 and 6 entries; on an axis of extent 2 both steps reach
/// the same site and it appears twice, once per bond.
pub open spec fn neighbor_list(d: Dims, s: Site) -> Seq<Site> {
    (if d.z_periodic_spec() {
        seq![z_step_down(d, s), z_step_up(d, s)]
    } else {
        Seq::<Site>::empty()
    }) + (if d.y_periodic_spec() {
        seq![y_step_down(d, s), y_step_up(d, s)]
    } else {
        Seq::<Site>::empty()
    }) + (if d.x_periodic_spec() {
        seq![x_step_down(d, s), x_step_up(d, s)]
    } else {
        Seq::<Site>::empty()
    })
}

/// Number of entries in the neighbor list: one pair per non-degenerate axis.
pub proof fn lemma_neighbor_count(d: Dims, s: Site)
    ensures
        neighbor_list(d, s).len() == (if d.z_periodic_spec() { 2int } else { 0int })
            + (if d.y_periodic_spec() { 2int } else { 0int })
            + (if d.x_periodic_spec() { 2int } else { 0int }),
{
}

/// Every listed neighbor is itself an in-bounds site.
pub proof fn lemma_neighbors_in_bounds(d: Dims, s: Site)
    requires
        d.valid(),
        s.in_bounds(d),
    ensures
        forall|k: int|
            0 <= k < neighbor_list(d, s).len() ==> #[trigger] neighbor_list(d, s)[k].in_bounds(
                d,
            ),
{
}

/// On a chain with one non-degenerate axis of extent n > 1, the first site
/// couples to the last site (wraparound) and to its successor, and to
/// nothing else.
pub proof fn lemma_chain_wraparound(n: usize)
    requires
        n > 1,
    ensures
        neighbor_list(Dims { nz: 1, ny: 1, nx: n }, Site { z: 0, y: 0, x: 0 }) == seq![
            Site { z: 0, y: 0, x: (n - 1) as usize },
            Site { z: 0, y: 0, x: 1 },
        ],
{
    let d = Dims { nz: 1, ny: 1, nx: n };
    let s = Site { z: 0, y: 0, x: 0 };
    assert(neighbor_list(d, s) =~= seq![
        Site { z: 0, y: 0, x: (n - 1) as usize },
        Site { z: 0, y: 0, x: 1 },
    ]);
}

/// A fully degenerate lattice (a single site) has no neighbors at all, so
/// its coupling sum is empty rather than a self-coupling.
pub proof fn lemma_single_site_isolated(s: Site)
    ensures
        neighbor_list(Dims { nz: 1, ny: 1, nx: 1 }, s).len() == 0,
{
}

/// The two periodic steps along one axis invert each other.
pub proof fn lemma_wrap_inverses(i: usize, n: usize)
    requires
        1 <= n,
        i < n,
    ensures
        wrap_inc_spec(wrap_dec_spec(i, n), n) == i,
        wrap_dec_spec(wrap_inc_spec(i, n), n) == i,
{
}

/// How many of the two entries of one axis pair hit a given site.
pub open spec fn pair_hits(t: Site, a: Site, b: Site) -> int {
    (if t == a {
        1int
    } else {
        0int
    }) + (if t == b {
        1int
    } else {
        0int
    })
}

/// How often a site occurs in another site's neighbor list: the number of
/// bonds between the two.
pub open spec fn neighbor_multiplicity(d: Dims, s: Site, t: Site) -> int {
    (if d.z_periodic_spec() {
        pair_hits(t, z_step_down(d, s), z_step_up(d, s))
    } else {
        0int
    }) + (if d.y_periodic_spec() {
        pair_hits(t, y_step_down(d, s), y_step_up(d, s))
    } else {
        0int
    }) + (if d.x_periodic_spec() {
        pair_hits(t, x_step_down(d, s), x_step_up(d, s))
    } else {
        0int
    })
}

/// `neighbor_multiplicity` counts exactly the occurrences in the neighbor
/// list.
pub proof fn lemma_neighbor_multiplicity(d: Dims, s: Site, t: Site)
    ensures
        neighbor_list(d, s).to_multiset().count(t) == neighbor_multiplicity(d, s, t),
{
    broadcast use vstd::seq_lib::group_to_multiset_ensures;

    let zseg = if d.z_periodic_spec() {
        seq![z_step_down(d, s), z_step_up(d, s)]
    } else {
        Seq::<Site>::empty()
    };
    let yseg = if d.y_periodic_spec() {
        seq![y_step_down(d, s), y_step_up(d, s)]
    } else {
        Seq::<Site>::empty()
    };
    let xseg = if d.x_periodic_spec() {
        seq![x_step_down(d, s), x_step_up(d, s)]
    } else {
        Seq::<Site>::empty()
    };
    vstd::seq_lib::lemma_multiset_commutative(zseg + yseg, xseg);
    vstd::seq_lib::lemma_multiset_commutative(zseg, yseg);
    lemma_segment_count(zseg, t);
    lemma_segment_count(yseg, t);
    lemma_segment_count(xseg, t);
}

/// Occurrence count of a site in one axis segment (an empty segment or one
/// pair).
proof fn lemma_segment_count(seg: Seq<Site>, t: Site)
    requires
        seg.len() == 0 || seg.len() == 2,
    ensures
        seg.len() == 0 ==> seg.to_multiset().count(t) == 0,
        seg.len() == 2 ==> seg.to_multiset().count(t) == pair_hits(t, seg[0], seg[1]),
{
    broadcast use vstd::seq_lib::group_to_multiset_ensures;

    if seg.len() == 0 {
        assert(seg.to_multiset() =~= Multiset::<Site>::empty());
    } else {
        assert(seg =~= Seq::<Site>::empty().push(seg[0]).push(seg[1]));
        assert(Seq::<Site>::empty().to_multiset() =~= Multiset::<Site>::empty());
        assert(seg.to_multiset() =~= Multiset::<Site>::empty().insert(seg[0]).insert(seg[1]));
    }
}

/// Every bond is seen from both of its endpoints: a site occurs in
/// another's neighbor list exactly as often as the other occurs in its own.
/// This symmetry is what the halved coupling sum relies on, each bond being
/// traversed once from each end over a full sweep.
pub proof fn lemma_bond_symmetry(d: Dims, s: Site, t: Site)
    requires
        d.valid(),
        s.in_bounds(d),
        t.in_bounds(d),
    ensures
        neighbor_multiplicity(d, s, t) == neighbor_multiplicity(d, t, s),
        neighbor_list(d, s).to_multiset().count(t) == neighbor_list(d, t).to_multiset().count(s),
{
    lemma_wrap_inverses(s.z, d.nz);
    lemma_wrap_inverses(t.z, d.nz);
    lemma_wrap_inverses(s.y, d.ny);
    lemma_wrap_inverses(t.y, d.ny);
    lemma_wrap_inverses(s.x, d.nx);
    lemma_wrap_inverses(t.x, d.nx);
    assert(t == z_step_down(d, s) <==> s == z_step_up(d, t));
    assert(t == z_step_up(d, s) <==> s == z_step_down(d, t));
    assert(t == y_step_down(d, s) <==> s == y_step_up(d, t));
    assert(t == y_step_up(d, s) <==> s == y_step_down(d, t));
    assert(t == x_step_down(d, s) <==> s == x_step_up(d, t));
    assert(t == x_step_up(d, s) <==> s == x_step_down(d, t));
    lemma_neighbor_multiplicity(d, s, t);
    lemma_neighbor_multiplicity(d, t, s);
}

/// The nearest neighbors of an in-bounds site, wrapped periodically along
/// every non-degenerate axis.
pub fn neighbors(d: Dims, s: Site) -> (v: Vec<Site>)
    requires
        d.valid(),
        s.in_bounds(d),
    ensures
        v@ == neighbor_list(d, s),
{
    let mut v: Vec<Site> = Vec::new();
    if d.z_periodic() {
        v.push(Site { z: wrap_dec(s.z, d.nz), y: s.y, x: s.x });
        v.push(Site { z: wrap_inc(s.z, d.nz), y: s.y, x: s.x });
    }
    if d.y_periodic() {
        v.push(Site { z: s.z, y: wrap_dec(s.y, d.ny), x: s.x });
        v.push(Site { z: s.z, y: wrap_inc(s.y, d.ny), x: s.x });
    }
    if d.x_periodic() {
        v.push(Site { z: s.z, y: s.y, x: wrap_dec(s.x, d.nx) });
        v.push(Site { z: s.z, y: s.y, x: wrap_inc(s.x, d.nx) });
    }
    proof {
        assert(v@ =~= neighbor_list(d, s));
    }
    v
}

} // verus!
