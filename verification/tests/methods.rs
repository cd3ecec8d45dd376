use drawing_engine::dither::{diffuse, dithering_mask};
use drawing_engine::edges::{contour_mask, contour_of, detect_edges};
use drawing_engine::generate::{plan_gray, process_image, Method, Tables};
use drawing_engine::human::{human_outline, mask_of_points, outline_of};
use drawing_engine::mask::ActivationMask;
use drawing_engine::matrix::{dark, matrix_mask};
use drawing_engine::path::{nearest_index, order_points, squared_distance};
use drawing_engine::raster::{cell_count, index_of, within_limits, GrayGrid, Picture};
use drawing_engine::scan::continuous_mask;
use drawing_engine::spiral::{cells_hit, sample_count, spiral_mask, sweep_limit};
use drawing_engine::stipple::{hash_position, lattice_hashes, stippling_mask};

fn gray(width: u32, height: u32, data: &[u8]) -> GrayGrid {
    GrayGrid::new(width, height, data.to_vec()).unwrap()
}

fn flat_gray(width: u32, height: u32, level: u8) -> GrayGrid {
    GrayGrid::new(width, height, vec![level; (width * height) as usize]).unwrap()
}

fn flat_picture(width: u32, height: u32, rgb: [u8; 3]) -> Picture {
    let mut rgba = Vec::new();
    for _ in 0..width * height {
        rgba.extend_from_slice(&[rgb[0], rgb[1], rgb[2], 255]);
    }
    Picture::new(width, height, rgba).unwrap()
}

fn no_tables() -> Tables {
    Tables { spiral_samples: Vec::new(), stipple_levels: Vec::new() }
}

fn pattern(mask: &ActivationMask) -> String {
    mask.cells.iter().map(|&b| if b { '#' } else { '.' }).collect()
}

#[test]
fn grids_are_accepted_only_with_one_sample_per_cell() {
    assert!(GrayGrid::new(2, 3, vec![0; 6]).is_some());
    assert!(GrayGrid::new(2, 3, vec![0; 5]).is_none());
    assert!(GrayGrid::new(2, 3, vec![0; 7]).is_none());
    assert!(GrayGrid::new(0, 3, Vec::new()).is_some());
    assert!(GrayGrid::new(65536, 65536, Vec::new()).is_none());
    assert!(Picture::new(2, 3, vec![0; 24]).is_some());
    assert!(Picture::new(2, 3, vec![0; 6]).is_none());
    assert!(Picture::new(65536, 65536, Vec::new()).is_none());
    assert!(ActivationMask::new(2, 2, vec![false; 4]).is_some());
    assert!(ActivationMask::new(2, 2, vec![false; 3]).is_none());
    assert!(ActivationMask::new(u32::MAX, u32::MAX, Vec::new()).is_none());
}

#[test]
fn grids_are_held_to_the_limits_on_sides_and_cells() {
    assert!(within_limits(0, 0));
    assert!(within_limits(65535, 65537));
    assert!(!within_limits(65536, 65536));
    assert!(within_limits(2147483641, 1));
    assert!(within_limits(1, 2147483641));
    assert!(!within_limits(2147483642, 1));
    assert!(!within_limits(1, 2147483642));
    assert!(within_limits(2147483641, 2));
    assert!(!within_limits(2147483641, 3));
    assert!(GrayGrid::new(2147483642, 0, Vec::new()).is_none());
    assert!(GrayGrid::new(2147483641, 0, Vec::new()).is_some());
    assert!(Picture::new(0, 2147483642, Vec::new()).is_none());
    assert!(ActivationMask::new(2147483642, 0, Vec::new()).is_none());
}

#[test]
fn cells_are_numbered_row_by_row() {
    assert_eq!(index_of(3, 2, 0, 0), 0);
    assert_eq!(index_of(3, 2, 2, 0), 2);
    assert_eq!(index_of(3, 2, 0, 1), 3);
    assert_eq!(index_of(3, 2, 2, 1), 5);
    assert_eq!(cell_count(3, 2), 6);
    assert_eq!(cell_count(u32::MAX, u32::MAX), 18446744065119617025);
    let g = gray(3, 2, &[10, 20, 30, 40, 50, 60]);
    assert_eq!(g.get(1, 0), 20);
    assert_eq!(g.get(0, 1), 40);
    assert_eq!(g.get(2, 1), 60);
}

#[test]
fn mask_cells_can_be_set_read_and_counted() {
    let mut mask = ActivationMask::blank(3, 2);
    assert_eq!(mask.cells, vec![false; 6]);
    assert_eq!(mask.count_active(), 0);
    mask.set(2, 0, true);
    mask.set(0, 1, true);
    mask.set(1, 1, true);
    mask.set(1, 1, false);
    assert_eq!(pattern(&mask), "..##..");
    assert!(mask.is_active(2, 0));
    assert!(mask.is_active(0, 1));
    assert!(!mask.is_active(1, 1));
    assert!(!mask.is_active(3, 0));
    assert!(!mask.is_active(0, 2));
    assert_eq!(mask.count_active(), 2);
}

#[test]
fn action_sequence_lists_active_cells_in_row_major_order() {
    let mask = ActivationMask::new(3, 2, vec![false, true, true, true, false, true]).unwrap();
    assert_eq!(mask.action_sequence(), vec![(1, 0), (2, 0), (0, 1), (2, 1)]);
    assert!(ActivationMask::blank(4, 4).action_sequence().is_empty());
    assert!(ActivationMask::blank(0, 5).action_sequence().is_empty());
}

#[test]
fn method_names_select_their_methods() {
    assert_eq!(Method::from_name("matrix"), Method::Matrix);
    assert_eq!(Method::from_name("dithering"), Method::Dithering);
    assert_eq!(Method::from_name("spiral"), Method::Spiral);
    assert_eq!(Method::from_name("stippling"), Method::Stippling);
    assert_eq!(Method::from_name("contour"), Method::Contour);
    assert_eq!(Method::from_name("human"), Method::Human);
    assert_eq!(Method::from_name("continuous"), Method::Continuous);
    assert_eq!(Method::from_name(""), Method::Matrix);
    assert_eq!(Method::from_name("Dithering"), Method::Matrix);
    assert_eq!(Method::from_name("hilbert"), Method::Matrix);
}

#[test]
fn luminance_threshold_uses_the_three_weights() {
    assert!(dark(0, 0, 0));
    assert!(!dark(255, 255, 255));
    assert!(dark(127, 127, 127));
    assert!(!dark(128, 128, 128));
    assert!(dark(255, 0, 0));
    assert!(dark(0, 0, 255));
    assert!(dark(255, 0, 255));
    assert!(!dark(0, 255, 0));
    assert!(dark(0, 178, 0));
    assert!(!dark(0, 179, 0));
    assert!(dark(255, 77, 255));
    assert!(!dark(255, 78, 255));
    assert!(dark(255, 103, 0));
    assert!(!dark(255, 104, 0));
    assert!(!dark(210, 101, 154));
    assert!(dark(209, 101, 154));
    assert!(dark(200, 100, 50));
    assert!(!dark(50, 160, 200));
}

#[test]
fn matrix_mask_marks_dark_pixels_and_ignores_alpha() {
    let rgba = vec![
        0, 0, 0, 0, 255, 255, 255, 255, 0, 179, 0, 255, 0, 178, 0, 7, 128, 128, 128, 255, 127, 127,
        127, 0,
    ];
    let picture = Picture::new(3, 2, rgba).unwrap();
    let mask = matrix_mask(&picture);
    assert_eq!((mask.width, mask.height), (3, 2));
    assert_eq!(pattern(&mask), "#..#.#");
    let plan = process_image(&picture, "anything else", &no_tables());
    assert_eq!(pattern(&plan.mask), "#..#.#");
    assert!(plan.order.is_empty());
}

#[test]
fn continuous_mask_marks_samples_below_the_threshold() {
    let g = gray(3, 3, &[0, 127, 128, 255, 100, 200, 128, 129, 1]);
    let mask = continuous_mask(&g);
    assert_eq!(pattern(&mask), "##..#...#");
    assert_eq!((mask.width, mask.height), (3, 3));
    assert!(continuous_mask(&gray(0, 0, &[])).cells.is_empty());
}

#[test]
fn error_share_is_clamped_and_truncated() {
    assert_eq!(diffuse(100, 100, 7), 143);
    assert_eq!(diffuse(100, 127, 7), 155);
    assert_eq!(diffuse(100, -255, 7), 0);
    assert_eq!(diffuse(200, 127, 7), 255);
    assert_eq!(diffuse(0, 0, 5), 0);
    assert_eq!(diffuse(10, -55, 3), 0);
    assert_eq!(diffuse(10, -50, 3), 0);
    assert_eq!(diffuse(10, -49, 3), 0);
    assert_eq!(diffuse(10, -5, 3), 9);
    assert_eq!(diffuse(10, 5, 1), 10);
    assert_eq!(diffuse(254, 17, 1), 255);
    assert_eq!(diffuse(254, 15, 1), 254);
}

#[test]
fn dithering_spreads_the_error_over_the_neighbours() {
    let mask = dithering_mask(&gray(3, 2, &[100, 200, 50, 150, 250, 0]));
    assert_eq!(pattern(&mask), "#.#..#");
    let single = dithering_mask(&gray(1, 1, &[127]));
    assert_eq!(pattern(&single), "#");
    let row = dithering_mask(&gray(4, 1, &[127, 127, 127, 127]));
    assert_eq!(pattern(&row), "#.#.");
}

#[test]
fn dithering_reproduces_pure_black_and_white() {
    let data = [0, 255, 255, 0, 0, 0, 255, 0, 255, 255, 0, 255];
    let mask = dithering_mask(&gray(4, 3, &data));
    assert_eq!(pattern(&mask), "#..###.#..#.");
    assert_eq!(dithering_mask(&flat_gray(5, 5, 0)).count_active(), 25);
    assert_eq!(dithering_mask(&flat_gray(5, 5, 255)).count_active(), 0);
}

#[test]
fn dithering_count_can_rise_by_a_cell_where_the_level_rises() {
    assert_eq!(dithering_mask(&flat_gray(3, 4, 51)).count_active(), 10);
    assert_eq!(dithering_mask(&flat_gray(3, 4, 52)).count_active(), 11);
    assert_eq!(dithering_mask(&flat_gray(3, 4, 0)).count_active(), 12);
    assert_eq!(dithering_mask(&flat_gray(3, 4, 255)).count_active(), 0);
}

#[test]
fn plans_of_a_luminance_grid_follow_the_method() {
    let g = gray(3, 2, &[0, 255, 100, 200, 127, 128]);
    let tables = Tables { spiral_samples: vec![(0, 0), (2, 0), (1, 0)], stipple_levels: vec![1] };
    assert!(plan_gray(&g, Method::Matrix, &tables).is_none());
    let continuous = plan_gray(&g, Method::Continuous, &tables).unwrap();
    assert_eq!(pattern(&continuous.mask), "#.#.#.");
    let spiral = plan_gray(&g, Method::Spiral, &tables).unwrap();
    assert_eq!(pattern(&spiral.mask), "#.#...");
    let stippling = plan_gray(&g, Method::Stippling, &tables).unwrap();
    assert_eq!(pattern(&stippling.mask), "#.....");
    let dithering = plan_gray(&g, Method::Dithering, &tables).unwrap();
    assert_eq!(dithering.mask.cells, dithering_mask(&g).cells);
    let contour = plan_gray(&g, Method::Contour, &tables).unwrap();
    assert_eq!(contour.mask.count_active(), 0);
    let human = plan_gray(&g, Method::Human, &tables).unwrap();
    assert!(human.order.is_empty());
    for plan in [continuous, spiral, stippling, dithering, contour] {
        assert!(plan.order.is_empty());
    }
}

#[test]
fn dithering_of_flat_mid_gray_gives_a_mixed_pattern() {
    let mask = dithering_mask(&flat_gray(4, 4, 127));
    assert_eq!(pattern(&mask), "#.#..#.##.#..#.#");
    assert_eq!(mask.count_active(), 8);
}

#[test]
fn dithering_density_follows_the_gray_level() {
    let levels = [0u8, 32, 64, 96, 127, 128, 160, 192, 224, 255];
    let expected = [256u64, 231, 196, 163, 129, 128, 94, 64, 29, 0];
    let mut previous = u64::MAX;
    for (level, want) in levels.iter().zip(expected.iter()) {
        let count = dithering_mask(&flat_gray(16, 16, *level)).count_active();
        assert_eq!(count, *want);
        assert!(count <= previous);
        previous = count;
    }
}

#[test]
fn dithering_of_a_mid_gray_picture_is_mixed_and_repeatable() {
    let picture = flat_picture(4, 4, [127, 127, 127]);
    let first = process_image(&picture, "dithering", &no_tables());
    let second = process_image(&picture, "dithering", &no_tables());
    let count = first.mask.count_active();
    assert!(count != 0);
    assert!(count != 16);
    assert_eq!(first.mask.cells, second.mask.cells);
    assert_eq!((first.mask.width, first.mask.height), (4, 4));
}

#[test]
fn luminance_has_one_sample_per_pixel() {
    let mut rgba = Vec::new();
    rgba.extend_from_slice(&[0, 0, 0, 255]);
    rgba.extend_from_slice(&[255, 255, 255, 255]);
    rgba.extend_from_slice(&[255, 255, 255, 0]);
    rgba.extend_from_slice(&[0, 0, 0, 0]);
    rgba.extend_from_slice(&[10, 10, 10, 255]);
    rgba.extend_from_slice(&[250, 250, 250, 255]);
    let picture = Picture::new(3, 2, rgba).unwrap();
    let g = picture.to_gray();
    assert_eq!((g.width, g.height), (3, 2));
    assert_eq!(g.data.len(), 6);
    assert_eq!(g.data[0], 0);
    assert_eq!(g.data[1], 255);
    assert_eq!(g.data[2], 255);
    assert_eq!(g.data[3], 0);
    assert!(g.data[4] < 128);
    assert!(g.data[5] >= 128);
    let empty = Picture::new(0, 0, Vec::new()).unwrap().to_gray();
    assert!(empty.data.is_empty());
}

#[test]
fn continuous_method_on_a_picture_marks_its_dark_pixels() {
    let mut rgba = Vec::new();
    for v in [0u8, 255, 255, 0, 0, 255] {
        rgba.extend_from_slice(&[v, v, v, 255]);
    }
    let picture = Picture::new(3, 2, rgba).unwrap();
    let plan = process_image(&picture, "continuous", &no_tables());
    assert_eq!(pattern(&plan.mask), "#..##.");
    assert!(plan.order.is_empty());
}

#[test]
fn every_method_makes_an_empty_mask_of_an_empty_picture() {
    let tables = Tables { spiral_samples: vec![(0, 0), (1, 1)], stipple_levels: vec![255; 4] };
    for (w, h) in [(0u32, 0u32), (0, 3), (3, 0)] {
        let picture = Picture::new(w, h, Vec::new()).unwrap();
        for method in
            ["matrix", "dithering", "spiral", "stippling", "contour", "human", "continuous", "?"]
        {
            let plan = process_image(&picture, method, &tables);
            assert_eq!((plan.mask.width, plan.mask.height), (w, h));
            assert!(plan.mask.cells.is_empty());
            assert!(plan.order.is_empty());
            assert!(plan.mask.action_sequence().is_empty());
        }
    }
}

#[test]
fn every_method_marks_a_single_black_pixel_as_its_rule_says() {
    let picture = flat_picture(1, 1, [0, 0, 0]);
    let tables = Tables { spiral_samples: vec![(0, 0)], stipple_levels: vec![1] };
    for (method, active) in [
        ("matrix", true),
        ("dithering", true),
        ("spiral", true),
        ("stippling", true),
        ("contour", false),
        ("human", false),
        ("continuous", true),
    ] {
        let plan = process_image(&picture, method, &tables);
        assert_eq!(plan.mask.cells, vec![active]);
    }
}

#[test]
fn spiral_sample_count_is_ten_times_the_diagonal_rounded_up() {
    assert_eq!(sample_count(0, 0), 0);
    assert_eq!(sample_count(1, 0), 10);
    assert_eq!(sample_count(1, 1), 15);
    assert_eq!(sample_count(2, 2), 29);
    assert_eq!(sample_count(3, 4), 50);
    assert_eq!(sample_count(100, 100), 1415);
    assert_eq!(sample_count(u32::MAX, u32::MAX), 60740009986);
}

#[test]
fn spiral_keeps_the_samples_that_fall_on_the_grid() {
    let samples = vec![(1, 1), (-1, 0), (2, 0), (3, 0), (0, 2), (1, 1), (0, -1), (0, 1)];
    assert_eq!(cells_hit(3, 2, &samples), vec![(1, 1), (2, 0), (1, 1), (0, 1)]);
    assert!(cells_hit(0, 0, &samples).is_empty());
    assert!(cells_hit(3, 2, &Vec::new()).is_empty());
}

#[test]
fn spiral_marks_dark_cells_under_the_sweep() {
    let g = gray(3, 2, &[0, 0, 0, 200, 0, 0]);
    let samples = vec![(1, 1), (-1, 0), (2, 0), (3, 0), (0, 2), (1, 1), (0, 1)];
    let mask = spiral_mask(&g, &samples);
    assert_eq!(pattern(&mask), "..#.#.");
    let tables = Tables { spiral_samples: samples, stipple_levels: Vec::new() };
    let plan = process_image(&flat_picture(3, 2, [0, 0, 0]), "spiral", &tables);
    assert_eq!(pattern(&plan.mask), "..###.");
    let none = process_image(&flat_picture(3, 2, [0, 0, 0]), "spiral", &no_tables());
    assert_eq!(none.mask.count_active(), 0);
}

#[test]
fn spiral_reads_a_table_no_further_than_the_sweep_goes() {
    assert_eq!(sweep_limit(0, 1, 1), 0);
    assert_eq!(sweep_limit(14, 1, 1), 14);
    assert_eq!(sweep_limit(15, 1, 1), 15);
    assert_eq!(sweep_limit(16, 1, 1), 15);
    assert_eq!(sweep_limit(1000, 3, 4), 50);
    assert_eq!(sweep_limit(1000, 0, 0), 0);
    let mut samples = vec![(5, 5); 15];
    samples.push((0, 0));
    let g = gray(1, 1, &[0]);
    assert_eq!(spiral_mask(&g, &samples).count_active(), 0);
    assert!(cells_hit(1, 1, &samples).is_empty());
    samples[14] = (0, 0);
    assert_eq!(spiral_mask(&g, &samples).count_active(), 1);
    assert_eq!(cells_hit(1, 1, &samples), vec![(0, 0)]);
    let tables = Tables { spiral_samples: vec![(0, 0); 40], stipple_levels: Vec::new() };
    let plan = process_image(&flat_picture(2, 2, [0, 0, 0]), "spiral", &tables);
    assert_eq!(pattern(&plan.mask), "#...");
}

#[test]
fn position_hash_multiplies_and_combines() {
    assert_eq!(hash_position(0, 0), 0);
    assert_eq!(hash_position(1, 0), 73856093);
    assert_eq!(hash_position(0, 1), 19349663);
    assert_eq!(hash_position(3, 6), 199188141);
    assert_eq!(hash_position(60, 0), 4431365580);
    assert_eq!(hash_position(u32::MAX, u32::MAX), (4294967295u64 * 73856093) ^ (4294967295u64 * 19349663));
}

#[test]
fn lattice_hashes_cover_every_third_cell() {
    assert_eq!(
        lattice_hashes(7, 4),
        vec![0, 221568279, 443136558, 58048989, 239148234, 421297139]
    );
    assert_eq!(lattice_hashes(3, 3), vec![0]);
    assert_eq!(lattice_hashes(4, 1), vec![0, 221568279]);
    assert!(lattice_hashes(0, 9).is_empty());
    assert!(lattice_hashes(9, 0).is_empty());
}

#[test]
fn stippling_places_dots_on_lattice_points_below_their_level() {
    let g = flat_gray(7, 4, 100);
    let levels = vec![101, 100, 255, 0, 254, 99];
    let mask = stippling_mask(&g, &levels);
    assert_eq!(pattern(&mask), "#.....#.................#...");
    assert_eq!(mask.count_active(), 3);
    let short = stippling_mask(&g, &vec![101]);
    assert_eq!(short.count_active(), 1);
    assert!(short.is_active(0, 0));
    let white = stippling_mask(&flat_gray(7, 4, 255), &vec![255; 6]);
    assert_eq!(white.count_active(), 0);
    let nearly_white = stippling_mask(&flat_gray(7, 4, 254), &vec![255; 6]);
    assert_eq!(nearly_white.count_active(), 6);
    let black_without_dots = stippling_mask(&flat_gray(7, 4, 0), &vec![0; 6]);
    assert_eq!(black_without_dots.count_active(), 0);
}

#[test]
fn stippling_is_the_same_on_every_run() {
    let picture = flat_picture(10, 10, [0, 0, 0]);
    let hashes = lattice_hashes(10, 10);
    assert_eq!(hashes, lattice_hashes(10, 10));
    let levels: Vec<u8> = hashes.iter().map(|h| (h % 256) as u8).collect();
    let tables = Tables { spiral_samples: Vec::new(), stipple_levels: levels };
    let first = process_image(&picture, "stippling", &tables);
    let second = process_image(&picture, "stippling", &tables);
    assert_eq!(first.mask.cells, second.mask.cells);
    for y in 0..10 {
        for x in 0..10 {
            if x % 3 != 0 || y % 3 != 0 {
                assert!(!first.mask.is_active(x, y));
            }
        }
    }
    assert!(!first.mask.is_active(0, 0));
    assert!(first.mask.is_active(3, 0));
}

#[test]
fn contour_of_marks_strong_edge_cells() {
    let edges = gray(3, 2, &[0, 255, 128, 129, 0, 255]);
    let mask = contour_of(&edges);
    assert_eq!(pattern(&mask), ".#.#.#");
}

fn split_image(width: u32, height: u32) -> GrayGrid {
    let mut data = Vec::new();
    for _y in 0..height {
        for x in 0..width {
            data.push(if x < width / 2 { 20 } else { 230 });
        }
    }
    GrayGrid::new(width, height, data).unwrap()
}

#[test]
fn edge_map_is_binary_and_finds_a_sharp_boundary() {
    let edges = detect_edges(&split_image(16, 16));
    assert_eq!((edges.width, edges.height), (16, 16));
    assert_eq!(edges.data.len(), 256);
    assert!(edges.data.iter().all(|&v| v == 0 || v == 255));
    let found: Vec<(u32, u32)> = contour_of(&edges).action_sequence();
    assert!(!found.is_empty());
    for (x, y) in found {
        assert!((6..=9).contains(&x));
        assert!((1..=14).contains(&y));
    }
    let flat = detect_edges(&flat_gray(16, 16, 90));
    assert!(flat.data.iter().all(|&v| v == 0));
}

#[test]
fn edge_detection_copes_with_tiny_and_empty_grids() {
    for (w, h) in [(0u32, 0u32), (0, 4), (4, 0), (1, 1), (1, 5), (5, 1), (2, 2), (3, 3)] {
        let g = flat_gray(w, h, 77);
        let edges = detect_edges(&g);
        assert_eq!((edges.width, edges.height), (w, h));
        assert_eq!(edges.data.len(), (w * h) as usize);
        assert!(edges.data.iter().all(|&v| v == 0));
        let mask = contour_mask(&g);
        assert_eq!(mask.count_active(), 0);
        let outline = human_outline(&g);
        assert!(outline.1.is_empty());
        assert_eq!(outline.0.count_active(), 0);
    }
}

#[test]
fn edge_detection_copes_with_grids_around_the_size_of_its_blur() {
    for (w, h) in [(6u32, 6u32), (7, 7), (8, 8), (7, 20), (20, 7), (2, 9), (9, 2), (33, 5)] {
        let edges = detect_edges(&split_image(w, h));
        assert_eq!((edges.width, edges.height), (w, h));
        assert_eq!(edges.data.len(), (w * h) as usize);
        assert!(edges.data.iter().all(|&v| v == 0 || v == 255));
        for y in 0..h {
            for x in 0..w {
                if x == 0 || y == 0 || x == w - 1 || y == h - 1 {
                    assert_eq!(edges.get(x, y), 0);
                }
            }
        }
    }
}

#[test]
fn contour_and_outline_of_a_picture_agree_on_the_cells() {
    let mut rgba = Vec::new();
    for _y in 0..16 {
        for x in 0..16 {
            let v = if x < 8 { 0 } else { 255 };
            rgba.extend_from_slice(&[v, v, v, 255]);
        }
    }
    let picture = Picture::new(16, 16, rgba).unwrap();
    let contour = process_image(&picture, "contour", &no_tables());
    let human = process_image(&picture, "human", &no_tables());
    assert!(contour.order.is_empty());
    assert!(contour.mask.count_active() > 0);
    assert_eq!(contour.mask.cells, human.mask.cells);
    assert_eq!(human.order.len() as u64, human.mask.count_active());
    let mut sorted = human.order.clone();
    sorted.sort_by_key(|&(x, y)| (y, x));
    assert_eq!(sorted, contour.mask.action_sequence());
    assert_eq!(human.order[0], contour.mask.action_sequence()[0]);
}

#[test]
fn squared_distance_is_exact_over_the_whole_range() {
    assert_eq!(squared_distance((0, 0), (0, 0)), 0);
    assert_eq!(squared_distance((1, 2), (4, 6)), 25);
    assert_eq!(squared_distance((4, 6), (1, 2)), 25);
    assert_eq!(
        squared_distance((0, 0), (u32::MAX, u32::MAX)),
        2 * 4294967295u128 * 4294967295u128
    );
}

#[test]
fn nearest_index_takes_the_first_of_equally_near_points() {
    let points = vec![(5, 5), (1, 0), (0, 1), (9, 9)];
    assert_eq!(nearest_index(&points, (0, 0)), 1);
    assert_eq!(nearest_index(&points, (9, 8)), 3);
    assert_eq!(nearest_index(&vec![(3, 3)], (0, 0)), 0);
}

#[test]
fn outline_walks_greedily_to_the_nearest_point() {
    assert_eq!(
        order_points(vec![(0, 0), (5, 0), (1, 0), (2, 2)]),
        vec![(0, 0), (1, 0), (2, 2), (5, 0)]
    );
    assert_eq!(order_points(vec![(0, 0), (1, 0), (0, 1)]), vec![(0, 0), (1, 0), (0, 1)]);
    assert_eq!(order_points(vec![(7, 7)]), vec![(7, 7)]);
    assert!(order_points(Vec::new()).is_empty());
}

#[test]
fn outline_search_looks_at_five_hundred_points_only() {
    let mut points = vec![(0u32, 0u32)];
    for i in 0..500 {
        points.push((1000 + i, 0));
    }
    points.push((1, 0));
    let order = order_points(points);
    assert_eq!(order.len(), 502);
    assert_eq!(order[0], (0, 0));
    assert_eq!(order[1], (1000, 0));
    assert_eq!(order[2], (1001, 0));
    assert_eq!(order[500], (1499, 0));
    assert_eq!(order[501], (1, 0));
}

#[test]
fn outline_visits_ten_thousand_points_at_most_and_none_twice() {
    let mut points = Vec::new();
    for y in 0..101u32 {
        for x in 0..100u32 {
            points.push((x, y));
        }
    }
    assert_eq!(points.len(), 10100);
    let order = order_points(points);
    assert_eq!(order.len(), 10000);
    let mut seen = std::collections::HashSet::new();
    for p in &order {
        assert!(seen.insert(*p));
    }
    assert_eq!(order[0], (0, 0));
    assert_eq!(order[1], (1, 0));
}

#[test]
fn outline_of_an_edge_map_orders_and_marks_its_edge_cells() {
    let edges = gray(4, 2, &[255, 0, 0, 255, 0, 255, 0, 0]);
    let (mask, order) = outline_of(&edges);
    assert_eq!(order, vec![(0, 0), (1, 1), (3, 0)]);
    assert_eq!(pattern(&mask), "#..#.#..");
    let (blank, none) = outline_of(&gray(4, 2, &[0; 8]));
    assert!(none.is_empty());
    assert_eq!(blank.count_active(), 0);
}

#[test]
fn mask_of_points_ignores_points_outside_the_grid() {
    let mask = mask_of_points(3, 2, &vec![(0, 0), (2, 1), (3, 0), (0, 2), (2, 1)]);
    assert_eq!(pattern(&mask), "#....#");
}
