use ray_tracing::cli::{frame_count, has_custom_flag};
use ray_tracing::color::Color;
use ray_tracing::common::random_billiard_color;
use ray_tracing::material::{fisher_yates_permutation, Lambertian, NumberType, Perlin};
use ray_tracing::random_scene::{random_scene_rack, RACK_SIZE};

#[test]
fn lambertian_keeps_its_albedo() {
    let c = Color::new(120, 200, 150);
    assert_eq!(Lambertian::new(c).albedo(), c);
}

#[test]
fn perlin_slices_are_permutations() {
    let p = Perlin::new();
    for (j, k) in [(0, 0), (3, 200), (-7, 1000)] {
        let mut seen = [false; 256];
        for i in 0..256 {
            let idx = p.lattice_index(i, j, k);
            assert!(idx < 256);
            assert!(!seen[idx]);
            seen[idx] = true;
        }
    }
}

#[test]
fn perlin_lattice_wraps_every_256() {
    let p = Perlin::new();
    for i in -300..300 {
        assert_eq!(p.lattice_index(i, 5, -9), p.lattice_index(i + 256, 5 + 512, -9 - 256));
    }
    assert_eq!(p.lattice_index(-1, 0, 0), p.lattice_index(255, 0, 0));
    assert_eq!(p.lattice_index(i32::MIN, i32::MAX, 0), p.lattice_index(0, 255, 0));
}

#[test]
fn perlin_tables_are_shuffled() {
    let p = Perlin::new();
    let moved = (0..256).any(|i| p.lattice_index(i, 0, 0) != i as usize);
    let q = Perlin::new();
    let differ = (0..256).any(|i| p.lattice_index(i, 0, 0) != q.lattice_index(i, 0, 0));
    assert!(moved && differ);
}

#[test]
fn rack_holds_seventeen_balls_in_grid_order() {
    let rack = random_scene_rack();
    assert_eq!(rack.len(), RACK_SIZE);
    for (k, slot) in rack.iter().enumerate() {
        assert_eq!(slot.count, k);
        assert_eq!(slot.a, (k / 5) as i32 - 1);
        assert_eq!(slot.b, (k % 5) as i32 - 1);
        assert_eq!(slot.albedo, random_billiard_color(k));
        assert_eq!(slot.number_type, if k % 2 == 0 { NumberType::Line } else { NumberType::Circle });
    }
    assert_eq!((rack[16].a, rack[16].b), (2, 0));
}

#[test]
fn frame_count_from_the_first_argument() {
    let s = |w: &[&str]| w.iter().map(|x| x.to_string()).collect::<Vec<_>>();
    assert_eq!(frame_count(&s(&["prog"])), 60);
    assert_eq!(frame_count(&s(&[])), 60);
    assert_eq!(frame_count(&s(&["prog", "24"])), 24);
    assert_eq!(frame_count(&s(&["prog", "abc"])), 60);
    assert_eq!(frame_count(&s(&["prog", "-5"])), -5);
    assert_eq!(frame_count(&s(&["prog", "--custom", "7"])), 60);
}

#[test]
fn custom_flag_anywhere() {
    let s = |w: &[&str]| w.iter().map(|x| x.to_string()).collect::<Vec<_>>();
    assert!(has_custom_flag(&s(&["prog", "1", "--custom"])));
    assert!(!has_custom_flag(&s(&["prog", "1", "--custom2"])));
    assert!(!has_custom_flag(&s(&[])));
}

fn reference_shuffle(targets: &[usize]) -> Vec<usize> {
    let mut p: Vec<usize> = (0..256).collect();
    for i in (1..256).rev() {
        p.swap(i, targets[i - 1]);
    }
    p
}

#[test]
fn fisher_yates_with_self_partners_is_identity() {
    let targets: Vec<usize> = (1..256).collect();
    assert_eq!(fisher_yates_permutation(&targets), (0..256).collect::<Vec<usize>>());
}

#[test]
fn fisher_yates_matches_the_swap_sequence() {
    let zeros = vec![0usize; 255];
    let p = fisher_yates_permutation(&zeros);
    assert_eq!(p, reference_shuffle(&zeros));
    assert_eq!(p[0], 1);
    assert_eq!(p[255], 0);
    let mixed: Vec<usize> = (1..256).map(|i| (i * 7919) % (i + 1)).collect();
    let q = fisher_yates_permutation(&mixed);
    assert_eq!(q, reference_shuffle(&mixed));
    let mut sorted = q.clone();
    sorted.sort();
    assert_eq!(sorted, (0..256).collect::<Vec<usize>>());
}
