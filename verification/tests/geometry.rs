use magwav::Dims;
use magwav::Site;
use magwav::all_sites;
use magwav::flat_index;
use magwav::neighbors;
use magwav::site_of_index;
use magwav::wrap_dec;
use magwav::wrap_inc;

#[test]
fn wrap_inc_steps_and_wraps() {
    assert_eq!(wrap_inc(0, 3), 1);
    assert_eq!(wrap_inc(1, 3), 2);
    assert_eq!(wrap_inc(2, 3), 0);
    assert_eq!(wrap_inc(0, 1), 0);
}

#[test]
fn wrap_dec_steps_and_wraps() {
    assert_eq!(wrap_dec(0, 3), 2);
    assert_eq!(wrap_dec(1, 3), 0);
    assert_eq!(wrap_dec(2, 3), 1);
    assert_eq!(wrap_dec(0, 1), 0);
}

#[test]
fn flat_index_is_row_major() {
    let d = Dims { nz: 2, ny: 3, nx: 4 };
    assert_eq!(flat_index(d, Site { z: 0, y: 0, x: 0 }), 0);
    assert_eq!(flat_index(d, Site { z: 0, y: 0, x: 3 }), 3);
    assert_eq!(flat_index(d, Site { z: 0, y: 1, x: 0 }), 4);
    assert_eq!(flat_index(d, Site { z: 1, y: 0, x: 0 }), 12);
    assert_eq!(flat_index(d, Site { z: 1, y: 2, x: 3 }), 23);
}

#[test]
fn site_of_index_inverts_flat_index() {
    let d = Dims { nz: 3, ny: 2, nx: 5 };
    for i in 0..30 {
        let s = site_of_index(d, i);
        assert_eq!(flat_index(d, s), i);
    }
    assert_eq!(site_of_index(d, 29), Site { z: 2, y: 1, x: 4 });
}

#[test]
fn site_count_multiplies_extents() {
    let d = Dims { nz: 2, ny: 3, nx: 4 };
    assert_eq!(d.site_count(), 24);
    let single = Dims { nz: 1, ny: 1, nx: 1 };
    assert_eq!(single.site_count(), 1);
}

#[test]
fn degenerate_axes_are_not_periodic() {
    let chain = Dims { nz: 1, ny: 1, nx: 5 };
    assert!(!chain.z_periodic());
    assert!(!chain.y_periodic());
    assert!(chain.x_periodic());
}

#[test]
fn chain_neighbors_wrap_around() {
    let d = Dims { nz: 1, ny: 1, nx: 5 };
    let nb = neighbors(d, Site { z: 0, y: 0, x: 0 });
    assert_eq!(nb, vec![Site { z: 0, y: 0, x: 4 }, Site { z: 0, y: 0, x: 1 }]);
    let nb_last = neighbors(d, Site { z: 0, y: 0, x: 4 });
    assert_eq!(nb_last, vec![Site { z: 0, y: 0, x: 3 }, Site { z: 0, y: 0, x: 0 }]);
}

#[test]
fn single_site_has_no_neighbors() {
    let d = Dims { nz: 1, ny: 1, nx: 1 };
    let nb = neighbors(d, Site { z: 0, y: 0, x: 0 });
    assert!(nb.is_empty());
}

#[test]
fn extent_two_axis_lists_the_partner_twice() {
    let d = Dims { nz: 1, ny: 1, nx: 2 };
    let nb = neighbors(d, Site { z: 0, y: 0, x: 0 });
    assert_eq!(nb, vec![Site { z: 0, y: 0, x: 1 }, Site { z: 0, y: 0, x: 1 }]);
}

#[test]
fn bulk_site_has_six_neighbors_in_axis_order() {
    let d = Dims { nz: 3, ny: 3, nx: 3 };
    let nb = neighbors(d, Site { z: 0, y: 0, x: 0 });
    assert_eq!(
        nb,
        vec![
            Site { z: 2, y: 0, x: 0 },
            Site { z: 1, y: 0, x: 0 },
            Site { z: 0, y: 2, x: 0 },
            Site { z: 0, y: 1, x: 0 },
            Site { z: 0, y: 0, x: 2 },
            Site { z: 0, y: 0, x: 1 },
        ]
    );
}

#[test]
fn slab_site_has_four_neighbors() {
    let d = Dims { nz: 1, ny: 4, nx: 4 };
    let nb = neighbors(d, Site { z: 0, y: 2, x: 1 });
    assert_eq!(
        nb,
        vec![
            Site { z: 0, y: 1, x: 1 },
            Site { z: 0, y: 3, x: 1 },
            Site { z: 0, y: 2, x: 0 },
            Site { z: 0, y: 2, x: 2 },
        ]
    );
}

#[test]
fn neighbor_relation_is_symmetric() {
    let d = Dims { nz: 3, ny: 2, nx: 4 };
    let sites = all_sites(d);
    for s in sites.iter() {
        for t in sites.iter() {
            let s_to_t = neighbors(d, *s).iter().filter(|n| *n == t).count();
            let t_to_s = neighbors(d, *t).iter().filter(|n| *n == s).count();
            assert_eq!(s_to_t, t_to_s);
        }
    }
}

#[test]
fn all_sites_enumerates_in_flat_order() {
    let d = Dims { nz: 2, ny: 2, nx: 2 };
    let sites = all_sites(d);
    assert_eq!(sites.len(), 8);
    for (i, s) in sites.iter().enumerate() {
        assert_eq!(flat_index(d, *s), i);
    }
    assert_eq!(sites[0], Site { z: 0, y: 0, x: 0 });
    assert_eq!(sites[1], Site { z: 0, y: 0, x: 1 });
    assert_eq!(sites[2], Site { z: 0, y: 1, x: 0 });
    assert_eq!(sites[7], Site { z: 1, y: 1, x: 1 });
}
