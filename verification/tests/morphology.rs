use morphology::image::Image;
use morphology::kernel::{Kernel, KernelVal};
use morphology::pixel::{black, white, Pixel};

fn art(rows: &[&str]) -> Image {
    let height = rows.len() as u32;
    let width = if rows.is_empty() { 0 } else { rows[0].len() as u32 };
    let mut data = Vec::new();
    for row in rows {
        for ch in row.chars() {
            let p = if ch == '#' { white() } else { black() };
            data.push(p.0);
            data.push(p.1);
            data.push(p.2);
            data.push(p.3);
        }
    }
    Image::from_rgba8(data, width, height).unwrap()
}

fn show(image: &Image) -> Vec<String> {
    let mut rows = Vec::new();
    for y in 0..image.get_height() {
        let mut row = String::new();
        for x in 0..image.get_width() {
            let p = image.get_pixel(x, y);
            row.push(if p == white() {
                '#'
            } else if p == black() {
                '.'
            } else {
                '?'
            });
        }
        rows.push(row);
    }
    rows
}

fn raster(width: u32, height: u32, pixels: &[Pixel]) -> Image {
    let mut data = Vec::new();
    for p in pixels {
        data.push(p.0);
        data.push(p.1);
        data.push(p.2);
        data.push(p.3);
    }
    Image::from_rgba8(data, width, height).unwrap()
}

fn flat(side: u32) -> Kernel {
    let mut kernel = Kernel::new();
    kernel.change_dimension(side).unwrap();
    kernel
}

fn mask(rows: &[&str]) -> Kernel {
    let mut kernel = flat(rows.len() as u32);
    for (y, row) in rows.iter().enumerate() {
        for (x, ch) in row.chars().enumerate() {
            let val = match ch {
                '1' => KernelVal::One,
                '0' => KernelVal::Zero,
                _ => KernelVal::DontCare,
            };
            kernel.set(x as u32, y as u32, val);
        }
    }
    kernel
}

fn noise(width: u32, height: u32, seed: u32) -> Image {
    let mut data = Vec::new();
    let mut state = seed;
    for _ in 0..(width * height * 4) {
        state = state.wrapping_mul(1103515245).wrapping_add(12345) % 2147483648;
        data.push((state >> 16) as u8);
    }
    Image::from_rgba8(data, width, height).unwrap()
}

#[test]
fn all_white_stays_all_white() {
    let image = art(&["###", "###", "###"]);
    let all_white = vec![255u8; 36];
    assert_eq!(image.dilate(flat(3)).get_bitmap_data(), &all_white);
    assert_eq!(image.erode(flat(3)).get_bitmap_data(), &all_white);
}

#[test]
fn a_black_center_erodes_everything_and_is_dilated_away() {
    let image = art(&["###", "#.#", "###"]);
    let eroded = image.erode(flat(3));
    let mut all_black = Vec::new();
    for _ in 0..9 {
        all_black.push(0u8);
        all_black.push(0);
        all_black.push(0);
        all_black.push(255);
    }
    assert_eq!(eroded.get_width(), 3);
    assert_eq!(eroded.get_height(), 3);
    assert_eq!(eroded.get_bitmap_data(), &all_black);
    let dilated = image.dilate(flat(3));
    assert_eq!(dilated.get_width(), 3);
    assert_eq!(dilated.get_height(), 3);
    assert_eq!(dilated.get_bitmap_data(), &vec![255u8; 36]);
}

#[test]
fn the_unit_kernel_changes_nothing_on_opaque_rasters() {
    let image = raster(
        2,
        2,
        &[Pixel(1, 2, 3, 255), Pixel(200, 100, 0, 255), Pixel(0, 0, 0, 255), Pixel(255, 255, 255, 255)],
    );
    assert_eq!(image.dilate(Kernel::new()).get_bitmap_data(), image.get_bitmap_data());
    assert_eq!(image.erode(Kernel::new()).get_bitmap_data(), image.get_bitmap_data());
    let other = art(&["#..#.", "..#..", "#####"]);
    assert_eq!(other.dilate(Kernel::new()).get_bitmap_data(), other.get_bitmap_data());
    assert_eq!(other.erode(Kernel::new()).get_bitmap_data(), other.get_bitmap_data());
}

#[test]
fn dilation_yields_full_alpha_and_erosion_keeps_alpha() {
    let image = raster(2, 1, &[Pixel(1, 2, 3, 4), Pixel(5, 6, 7, 8)]);
    assert_eq!(image.dilate(Kernel::new()).get_bitmap_data(), &vec![1, 2, 3, 255, 5, 6, 7, 255]);
    assert_eq!(image.erode(Kernel::new()).get_bitmap_data(), &vec![1, 2, 3, 4, 5, 6, 7, 8]);
    assert_eq!(image.dilate(flat(3)).get_bitmap_data(), &vec![5, 6, 7, 255, 5, 6, 7, 255]);
    assert_eq!(image.erode(flat(3)).get_bitmap_data(), &vec![1, 2, 3, 4, 1, 2, 3, 4]);
}

#[test]
fn extrema_are_taken_channel_by_channel() {
    let image = raster(2, 1, &[Pixel(10, 200, 30, 255), Pixel(200, 10, 40, 255)]);
    assert_eq!(
        image.dilate(flat(3)).get_bitmap_data(),
        &vec![200, 200, 40, 255, 200, 200, 40, 255]
    );
    assert_eq!(image.erode(flat(3)).get_bitmap_data(), &vec![10, 10, 30, 255, 10, 10, 30, 255]);
}

#[test]
fn dilation_grows_and_erosion_shrinks() {
    let image = art(&["#....", "....#", "..#..", ".....", "#...."]);
    assert_eq!(show(&image.dilate(flat(3))), vec!["##.##", "#####", ".####", "####.", "##..."]);
    let holes = art(&["#####", "##.##", "#####", "####.", "#####"]);
    assert_eq!(show(&holes.erode(flat(3))), vec!["#...#", "#...#", "#....", "###..", "###.."]);
}

#[test]
fn a_wider_kernel_reaches_further() {
    let dot = art(&[".......", ".......", ".......", "...#...", ".......", ".......", "......."]);
    assert_eq!(
        show(&dot.dilate(flat(5))),
        vec![".......", ".#####.", ".#####.", ".#####.", ".#####.", ".#####.", "......."]
    );
    let hole = art(&["#######", "#######", "#######", "###.###", "#######", "#######", "#######"]);
    assert_eq!(
        show(&hole.erode(flat(5))),
        vec!["#######", "#.....#", "#.....#", "#.....#", "#.....#", "#.....#", "#######"]
    );
}

#[test]
fn a_neighbor_off_the_raster_counts_as_the_center() {
    // The only foreground cell looks two columns to the left.
    let far_left = mask(&["xxxxx", "xxxxx", "1xxxx", "xxxxx", "xxxxx"]);
    let image = art(&[".##"]);
    // At column 1 the cell looks off the raster and sees the white center;
    // the nearest pixel of the raster, at column 0, is black.
    assert_eq!(show(&image.erode(far_left.clone())), vec![".#."]);
    assert_eq!(show(&image.dilate(far_left.clone())), vec![".#."]);
    let other = art(&["#.."]);
    assert_eq!(show(&other.dilate(far_left.clone())), vec!["#.#"]);
    assert_eq!(show(&other.erode(far_left)), vec!["#.#"]);
}

#[test]
fn only_foreground_cells_take_part() {
    let right = mask(&["xxx", "xx1", "xxx"]);
    let image = art(&["#..#.", "..#.."]);
    assert_eq!(show(&image.dilate(right.clone())), vec!["..#..", ".#..."]);
    assert_eq!(show(&image.erode(right)), vec!["..#..", ".#..."]);
    let center = mask(&["000", "010", "000"]);
    assert_eq!(show(&image.dilate(center.clone())), vec!["#..#.", "..#.."]);
    assert_eq!(show(&image.erode(center)), vec!["#..#.", "..#.."]);
}

#[test]
fn a_kernel_without_foreground_leaves_the_seeds() {
    let none = mask(&["xxx", "x0x", "xxx"]);
    let image = raster(2, 1, &[Pixel(100, 100, 100, 255), Pixel(7, 8, 9, 10)]);
    assert_eq!(image.dilate(none.clone()).get_bitmap_data(), &vec![0, 0, 0, 255, 0, 0, 0, 255]);
    assert_eq!(image.erode(none).get_bitmap_data(), &vec![255u8; 8]);
}

#[test]
fn cells_off_the_raster_that_are_not_foreground_add_nothing() {
    let image = raster(1, 1, &[Pixel(100, 100, 100, 255)]);
    let none = mask(&["xxx", "xxx", "xxx"]);
    assert_eq!(image.dilate(none.clone()).get_bitmap_data(), &vec![0, 0, 0, 255]);
    assert_eq!(image.erode(none).get_bitmap_data(), &vec![255, 255, 255, 255]);
    let corner = mask(&["1xx", "xxx", "xxx"]);
    assert_eq!(image.dilate(corner.clone()).get_bitmap_data(), &vec![100, 100, 100, 255]);
    assert_eq!(image.erode(corner).get_bitmap_data(), &vec![100, 100, 100, 255]);
}

#[test]
fn get_min_or_max_gives_one_pixel_of_either_result() {
    let image = raster(
        3,
        1,
        &[Pixel(10, 200, 30, 255), Pixel(200, 10, 40, 255), Pixel(50, 60, 70, 80)],
    );
    let kernel = flat(3);
    assert_eq!(image.get_min_or_max(0, 0, &kernel, false), Pixel(200, 200, 40, 255));
    assert_eq!(image.get_min_or_max(0, 0, &kernel, true), Pixel(10, 10, 30, 255));
    assert_eq!(image.get_min_or_max(2, 0, &kernel, false), Pixel(200, 60, 70, 255));
    assert_eq!(image.get_min_or_max(2, 0, &kernel, true), Pixel(50, 10, 40, 80));
    assert_eq!(image.get_min_or_max(1, 0, &kernel, true), Pixel(10, 10, 30, 80));
}

#[test]
fn dilate_or_erode_picks_by_its_flag() {
    let image = art(&["#....", "....#", "..#..", ".....", "#...."]);
    assert_eq!(
        image.dilate_or_erode(flat(3), false).get_bitmap_data(),
        image.dilate(flat(3)).get_bitmap_data()
    );
    assert_eq!(
        image.dilate_or_erode(flat(3), true).get_bitmap_data(),
        image.erode(flat(3)).get_bitmap_data()
    );
    assert_eq!(show(&image.dilate_or_erode(flat(3), true)), vec![".....", ".....", ".....", ".....", "....."]);
}

#[test]
fn operations_leave_their_input_alone() {
    let image = art(&["#..", ".#.", "..#"]);
    let before = image.get_bitmap_data().clone();
    let _ = image.dilate(flat(3));
    let _ = image.erode(flat(3));
    let _ = image.open(flat(3));
    let _ = image.close(flat(3));
    assert_eq!(image.get_bitmap_data(), &before);
}

#[test]
fn empty_rasters_pass_through() {
    let image = Image::from_rgba8(Vec::new(), 0, 3).unwrap();
    let out = image.dilate(flat(3));
    assert_eq!(out.get_width(), 0);
    assert_eq!(out.get_height(), 3);
    assert!(out.get_bitmap_data().is_empty());
    let out = image.close(flat(5));
    assert_eq!(out.get_width(), 0);
    assert_eq!(out.get_height(), 3);
    assert!(out.get_bitmap_data().is_empty());
}

#[test]
fn opening_removes_specks_and_keeps_blocks() {
    let image = art(&[
        "........",
        "..####..",
        "..####..",
        "..####.#",
        "..####..",
        "........",
        "#.......",
        "........",
    ]);
    assert_eq!(
        show(&image.open(flat(3))),
        vec![
            "........",
            "..####..",
            "..####..",
            "..####..",
            "..####..",
            "........",
            "........",
            "........",
        ]
    );
}

#[test]
fn closing_fills_holes() {
    let hole = art(&["#######", "#######", "###.###", "#######", "#######"]);
    assert_eq!(
        show(&hole.close(flat(3))),
        vec!["#######", "#######", "#######", "#######", "#######"]
    );
    let image = art(&[
        "........",
        "..####..",
        "..####..",
        "..####.#",
        "..####..",
        "........",
        "#.......",
        "........",
    ]);
    assert_eq!(
        show(&image.close(flat(3))),
        vec![
            "..####..",
            "..####..",
            "..####..",
            "..######",
            "..####..",
            "........",
            "#.......",
            "#.......",
        ]
    );
}

#[test]
fn opening_and_closing_heed_only_the_size_of_the_kernel() {
    let image = art(&["#..#.", "..##.", ".###.", "....#"]);
    let edited = mask(&["x0x", "0x0", "x0x"]);
    assert_eq!(show(&image.open(edited.clone())), vec![".....", ".....", ".....", "....."]);
    assert_eq!(show(&image.close(edited.clone())), vec!["#####", "#####", "#####", "#####"]);
    assert_eq!(
        image.open(edited.clone()).get_bitmap_data(),
        image.open(flat(3)).get_bitmap_data()
    );
    assert_eq!(image.close(edited).get_bitmap_data(), image.close(flat(3)).get_bitmap_data());
    let gray = noise(6, 5, 7);
    let none = mask(&["xxxxx", "xxxxx", "xxxxx", "xxxxx", "xxxxx"]);
    assert_eq!(gray.open(none.clone()).get_bitmap_data(), gray.open(flat(5)).get_bitmap_data());
    assert_eq!(gray.close(none).get_bitmap_data(), gray.close(flat(5)).get_bitmap_data());
}

#[test]
fn opening_is_erosion_then_dilation() {
    let image = noise(7, 6, 42);
    assert_eq!(
        image.open(flat(3)).get_bitmap_data(),
        image.erode(flat(3)).dilate(flat(3)).get_bitmap_data()
    );
    assert_eq!(
        image.close(flat(3)).get_bitmap_data(),
        image.dilate(flat(3)).erode(flat(3)).get_bitmap_data()
    );
}

#[test]
fn opening_twice_is_opening_once() {
    for side in [1u32, 3, 5, 7] {
        for seed in [1u32, 2, 3] {
            let image = noise(9, 8, seed);
            let once = image.open(flat(side));
            let twice = once.open(flat(side));
            assert_eq!(twice.get_bitmap_data(), once.get_bitmap_data());
            let binary = image.binarize(128);
            let once = binary.open(flat(side));
            let twice = once.open(flat(side));
            assert_eq!(twice.get_bitmap_data(), once.get_bitmap_data());
        }
    }
}

#[test]
fn closing_twice_is_closing_once() {
    for side in [1u32, 3, 5, 7] {
        for seed in [4u32, 5, 6] {
            let image = noise(8, 9, seed);
            let once = image.close(flat(side));
            let twice = once.close(flat(side));
            assert_eq!(twice.get_bitmap_data(), once.get_bitmap_data());
            let binary = image.binarize(128);
            let once = binary.close(flat(side));
            let twice = once.close(flat(side));
            assert_eq!(twice.get_bitmap_data(), once.get_bitmap_data());
        }
    }
}

#[test]
fn the_unit_kernel_changes_no_binarized_raster() {
    for seed in [11u32, 12, 13] {
        let image = noise(6, 7, seed).binarize(128);
        assert_eq!(image.dilate(Kernel::new()).get_bitmap_data(), image.get_bitmap_data());
        assert_eq!(image.erode(Kernel::new()).get_bitmap_data(), image.get_bitmap_data());
    }
}
