//! The tree of the stop offsets of a gradient.

use tile_invalidation::gradient::{
    gpu_gradient_stop_offsets, gpu_gradient_stops_blocks, stops_are_opaque, GradientKind, ONE,
};

#[test]
fn test_block_counts() {
    assert_eq!(gpu_gradient_stops_blocks(0), 2);
    assert_eq!(gpu_gradient_stops_blocks(1), 3);
    assert_eq!(gpu_gradient_stops_blocks(2), 4);
    assert_eq!(gpu_gradient_stops_blocks(4), 6);
    assert_eq!(gpu_gradient_stops_blocks(5), 1 + 5 + 1 + 2);
    assert_eq!(gpu_gradient_stops_blocks(24), 1 + 24 + 1 + 5);
    assert_eq!(gpu_gradient_stops_blocks(25), 1 + 25 + 6 + 6);
    assert_eq!(gpu_gradient_stops_blocks(30), 1 + 30 + 6 + 7);
    assert_eq!(gpu_gradient_stops_blocks(124), 1 + 124 + 6 + 25);
    assert_eq!(gpu_gradient_stops_blocks(125), 1 + 125 + 31 + 26);
}

#[test]
fn test_the_tree_has_the_counted_blocks() {
    for n in 0..700usize {
        let offsets: Vec<u32> = (0..n as u32).collect();
        assert_eq!(
            1 + n + gpu_gradient_stop_offsets(&offsets).len(),
            gpu_gradient_stops_blocks(n),
            "{} stops",
            n
        );
    }
}

#[test]
fn test_small_trees() {
    assert_eq!(gpu_gradient_stop_offsets(&[]), vec![[ONE, ONE, ONE, ONE]]);
    assert_eq!(gpu_gradient_stop_offsets(&[7, 8]), vec![[7, 8, ONE, ONE]]);
    assert_eq!(gpu_gradient_stop_offsets(&[7, 8, 9, 10]), vec![[7, 8, 9, 10]]);
    // The fifth stop separates the two leaves.
    assert_eq!(
        gpu_gradient_stop_offsets(&[10, 11, 12, 13, 14, 15]),
        vec![[14, ONE, ONE, ONE], [10, 11, 12, 13], [15, ONE, ONE, ONE]]
    );
}

#[test]
fn test_tree_of_three_levels() {
    let offsets: Vec<u32> = (100..130).collect();
    let blocks = gpu_gradient_stop_offsets(&offsets);
    assert_eq!(blocks.len(), 1 + 5 + 7);
    assert_eq!(blocks[0], [124, ONE, ONE, ONE]);
    assert_eq!(blocks[1], [104, 109, 114, 119]);
    assert_eq!(blocks[2], [129, ONE, ONE, ONE]);
    assert_eq!(blocks[3], [ONE; 4]);
    assert_eq!(blocks[5], [ONE; 4]);
    assert_eq!(blocks[6], [100, 101, 102, 103]);
    assert_eq!(blocks[7], [105, 106, 107, 108]);
    assert_eq!(blocks[11], [125, 126, 127, 128]);
    assert_eq!(blocks[12], [ONE; 4]);
}

#[test]
fn test_every_stop_is_in_the_tree_once() {
    for n in [1usize, 4, 5, 24, 25, 26, 124, 125, 300] {
        let offsets: Vec<u32> = (1000..1000 + n as u32).collect();
        let mut seen: Vec<u32> = gpu_gradient_stop_offsets(&offsets)
            .iter()
            .flatten()
            .copied()
            .filter(|v| *v != ONE)
            .collect();
        seen.sort();
        assert_eq!(seen, offsets, "{} stops", n);
    }
}

#[test]
fn test_opaque_stops() {
    assert!(stops_are_opaque(&[]));
    assert!(stops_are_opaque(&[ONE, ONE]));
    assert!(!stops_are_opaque(&[ONE, 0x3f7f_ffff, ONE]));
    assert!(!stops_are_opaque(&[0]));
    assert_eq!(ONE, 1.0f32.to_bits());
}

#[test]
fn test_gradient_kind_numbers() {
    assert_eq!(GradientKind::Linear.to_u8(), 0);
    assert_eq!(GradientKind::Radial.to_u8(), 1);
    assert_eq!(GradientKind::Conic.to_u8(), 2);
}
