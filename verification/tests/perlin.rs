use rtc::perlin::{corner_hashes, gradient_terms, p, Axis, CornerHashes, PERMUTATION};

#[test]
fn the_shuffle_starts_and_ends_as_listed() {
    assert_eq!(151, p(0));
    assert_eq!(160, p(1));
    assert_eq!(137, p(2));
    assert_eq!(0, p(36));
    assert_eq!(255, p(140));
    assert_eq!(156, p(254));
    assert_eq!(180, p(255));
    for i in 0..=255u8 {
        assert_eq!(PERMUTATION[i as usize], p(i));
    }
}

#[test]
fn the_shuffle_holds_every_byte_once() {
    let mut seen = [false; 256];
    for i in 0..=255u8 {
        assert!(!seen[p(i) as usize], "{} stands twice", p(i));
        seen[p(i) as usize] = true;
    }
    assert!(seen.iter().all(|s| *s));
}

#[test]
fn corners_of_the_first_cell() {
    // p(0) = 151 and p(1) = 160 lead to p(151) = 17 and p(152) = 182, to
    // p(160) = 119 and p(161) = 248, and those to the eight entries below
    let expected = CornerHashes {
        aa0: 36,
        aa1: 103,
        ab0: 108,
        ab1: 110,
        ba0: 86,
        ba1: 164,
        bb0: 128,
        bb1: 195,
    };
    assert_eq!((17, 182, 119, 248), (p(151), p(152), p(160), p(161)));
    assert_eq!((36, 103, 108, 110), (p(17), p(18), p(182), p(183)));
    assert_eq!((86, 164, 128, 195), (p(119), p(120), p(248), p(249)));
    assert_eq!(expected, corner_hashes(0, 0, 0));
}

#[test]
fn corners_are_the_hashes_of_the_lattice_points() {
    let hash = |x: u8, y: u8, z: u8| p(z.wrapping_add(p(y.wrapping_add(p(x)))));
    for (x, y, z) in [(0u8, 0u8, 0u8), (1, 2, 3), (17, 200, 99), (254, 254, 254), (255, 255, 255), (255, 0, 128)] {
        let (x1, y1, z1) = (x.wrapping_add(1), y.wrapping_add(1), z.wrapping_add(1));
        let expected = CornerHashes {
            aa0: hash(x, y, z),
            aa1: hash(x, y, z1),
            ab0: hash(x, y1, z),
            ab1: hash(x, y1, z1),
            ba0: hash(x1, y, z),
            ba1: hash(x1, y, z1),
            bb0: hash(x1, y1, z),
            bb1: hash(x1, y1, z1),
        };
        assert_eq!(expected, corner_hashes(x, y, z), "cell ({x}, {y}, {z})");
    }
}

#[test]
fn corners_of_cells_where_no_sum_passes_255() {
    // the sums as they are written, without counting round
    let mut compared = 0;
    for (x, y, z) in [(36u8, 0u8, 0u8), (36, 10, 20), (2, 5, 9), (14, 3, 1)] {
        let a0 = y as u32 + p(x) as u32;
        let b0 = y as u32 + p(x + 1) as u32;
        if a0 + 1 > 255 || b0 + 1 > 255 {
            continue;
        }
        let aa = z as u32 + p(a0 as u8) as u32;
        let ab = z as u32 + p(a0 as u8 + 1) as u32;
        let ba = z as u32 + p(b0 as u8) as u32;
        let bb = z as u32 + p(b0 as u8 + 1) as u32;
        if [aa, ab, ba, bb].iter().any(|v| v + 1 > 255) {
            continue;
        }
        let expected = CornerHashes {
            aa0: p(aa as u8),
            aa1: p(aa as u8 + 1),
            ab0: p(ab as u8),
            ab1: p(ab as u8 + 1),
            ba0: p(ba as u8),
            ba1: p(ba as u8 + 1),
            bb0: p(bb as u8),
            bb1: p(bb as u8 + 1),
        };
        assert_eq!(expected, corner_hashes(x, y, z), "cell ({x}, {y}, {z})");
        compared += 1;
    }
    assert!(compared >= 2);
}

#[test]
fn gradients_by_hash() {
    for h in 0..=255u8 {
        let g = gradient_terms(h);
        let first = if h < 8 { Axis::X } else { Axis::Y };
        let second = if h < 4 {
            Axis::Y
        } else if h == 12 || h == 14 {
            Axis::X
        } else {
            Axis::Z
        };
        assert_eq!(first, g.first, "hash {h}");
        assert_eq!(second, g.second, "hash {h}");
        assert_eq!(h & 1 != 0, g.first_negated, "hash {h}");
        assert_eq!(h & 2 != 0, g.second_negated, "hash {h}");
    }
}

#[test]
fn gradients_of_named_hashes() {
    let g = gradient_terms(0);
    assert_eq!((Axis::X, false, Axis::Y, false), (g.first, g.first_negated, g.second, g.second_negated));
    let g = gradient_terms(3);
    assert_eq!((Axis::X, true, Axis::Y, true), (g.first, g.first_negated, g.second, g.second_negated));
    let g = gradient_terms(5);
    assert_eq!((Axis::X, true, Axis::Z, false), (g.first, g.first_negated, g.second, g.second_negated));
    let g = gradient_terms(12);
    assert_eq!((Axis::Y, false, Axis::X, false), (g.first, g.first_negated, g.second, g.second_negated));
    let g = gradient_terms(14);
    assert_eq!((Axis::Y, false, Axis::X, true), (g.first, g.first_negated, g.second, g.second_negated));
    let g = gradient_terms(15);
    assert_eq!((Axis::Y, true, Axis::Z, true), (g.first, g.first_negated, g.second, g.second_negated));
    let g = gradient_terms(200);
    assert_eq!((Axis::Y, false, Axis::Z, false), (g.first, g.first_negated, g.second, g.second_negated));
}
