//! Lattice geometry for a spin-dynamics simulation: fixed three-dimensional
//! grid dimensions, periodic (toroidal) neighbor indexing that degrades
//! gracefully on degenerate axes, flat buffer addressing, and an arena-style
//! owned container of per-site values.

mod grid;
mod lattice;

pub use grid::Dims;
pub use grid::all_sites;
pub use grid::Site;
pub use grid::flat_index;
pub use grid::flat_spec;
pub use grid::lemma_bond_symmetry;
pub use grid::lemma_chain_wraparound;
pub use grid::lemma_flat_in_range;
pub use grid::lemma_flat_injective;
pub use grid::lemma_neighbor_count;
pub use grid::lemma_neighbor_multiplicity;
pub use grid::lemma_neighbors_in_bounds;
pub use grid::lemma_single_site_isolated;
pub use grid::lemma_wrap_inverses;
pub use grid::neighbor_list;
pub use grid::neighbor_multiplicity;
pub use grid::neighbors;
pub use grid::pair_hits;
pub use grid::x_step_down;
pub use grid::x_step_up;
pub use grid::y_step_down;
pub use grid::y_step_up;
pub use grid::z_step_down;
pub use grid::z_step_up;
pub use grid::site_of_index;
pub use grid::wrap_dec;
pub use grid::wrap_dec_spec;
pub use grid::wrap_inc;
pub use grid::wrap_inc_spec;
pub use lattice::Lattice;
pub use lattice::LatticeError;
