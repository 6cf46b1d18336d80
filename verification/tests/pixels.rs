use nanomosaic::{
    bytes_to_rgba, create_mosaic, draw_full_horizontal_line, draw_full_vertical_line,
    extract_patch, negative, resize, rgba_to_bytes, Image, Pixel, Point, Size,
};

fn px(r: u8, g: u8, b: u8) -> Pixel {
    Pixel { r, g, b, a: 255 }
}

fn grid(img: &Image) -> Vec<Vec<Pixel>> {
    let mut rows = Vec::new();
    for y in 0..img.height() {
        rows.push(img.row(y));
    }
    rows
}

#[test]
fn mosaic_doubles_and_mirrors() {
    // a 2x2 patch with four distinct pixels
    let a = px(1, 0, 0);
    let b = px(2, 0, 0);
    let c = px(3, 0, 0);
    let d = px(4, 0, 0);
    let patch = Image::from_pixels(2, 2, vec![a, b, c, d]);
    let m = create_mosaic(&patch);
    assert_eq!(m.width(), 4);
    assert_eq!(m.height(), 4);
    let g = grid(&m);
    // top-left quadrant: the patch itself
    assert_eq!(g[0][0], a);
    assert_eq!(g[0][1], b);
    assert_eq!(g[1][0], c);
    assert_eq!(g[1][1], d);
    // top-right: mirrored left-right; pixel (x, y) appears at (2w-1-x, y)
    assert_eq!(g[0][3], a);
    assert_eq!(g[0][2], b);
    assert_eq!(g[1][3], c);
    assert_eq!(g[1][2], d);
    // bottom-left: mirrored top-bottom
    assert_eq!(g[3][0], a);
    assert_eq!(g[3][1], b);
    assert_eq!(g[2][0], c);
    assert_eq!(g[2][1], d);
    // bottom-right: mirrored both ways
    assert_eq!(g[3][3], a);
    assert_eq!(g[3][2], b);
    assert_eq!(g[2][3], c);
    assert_eq!(g[2][2], d);
}

#[test]
fn mosaic_seams_are_continuous() {
    let patch = Image::from_pixels(
        3,
        2,
        vec![px(1, 0, 0), px(2, 0, 0), px(3, 0, 0), px(4, 0, 0), px(5, 0, 0), px(6, 0, 0)],
    );
    let m = create_mosaic(&patch);
    let g = grid(&m);
    // across the vertical seam the neighbouring columns agree
    for y in 0..4 {
        assert_eq!(g[y][2], g[y][3]);
    }
    // across the horizontal seam the neighbouring rows agree
    for x in 0..6 {
        assert_eq!(g[1][x], g[2][x]);
    }
}

#[test]
fn mirror_functions_flip() {
    let patch = Image::from_pixels(2, 1, vec![px(1, 0, 0), px(2, 0, 0)]);
    let h = patch.mirror_horizontal();
    assert_eq!(h.pixel(0, 0), px(2, 0, 0));
    assert_eq!(h.pixel(1, 0), px(1, 0, 0));
    let tall = Image::from_pixels(1, 2, vec![px(1, 0, 0), px(2, 0, 0)]);
    let v = tall.mirror_vertical();
    assert_eq!(v.pixel(0, 0), px(2, 0, 0));
    assert_eq!(v.pixel(0, 1), px(1, 0, 0));
}

#[test]
fn patch_is_cut_from_image() {
    // a 4x4 image whose pixel (x, y) is numbered x + 4*y
    let mut data = Vec::new();
    for i in 0..16u8 {
        data.push(px(i, 0, 0));
    }
    let img = Image::from_pixels(4, 4, data);
    let p = extract_patch(&img, Point { x: 1, y: 1 }, Point { x: 3, y: 2 });
    assert_eq!(p.width(), 2);
    assert_eq!(p.height(), 1);
    assert_eq!(p.pixel(0, 0), px(5, 0, 0));
    assert_eq!(p.pixel(1, 0), px(6, 0, 0));
}

#[test]
fn patch_swapped_corners_is_identical() {
    let mut data = Vec::new();
    for i in 0..16u8 {
        data.push(px(i, 0, 0));
    }
    let img = Image::from_pixels(4, 4, data);
    let a = extract_patch(&img, Point { x: 1, y: 1 }, Point { x: 3, y: 3 });
    let b = extract_patch(&img, Point { x: 3, y: 3 }, Point { x: 1, y: 1 });
    assert_eq!(a.width(), b.width());
    assert_eq!(a.height(), b.height());
    for y in 0..a.height() {
        assert_eq!(a.row(y), b.row(y));
    }
}

#[test]
fn degenerate_patch_is_placeholder() {
    let img = Image::new_filled(4, 4, px(9, 9, 9));
    let p = extract_patch(&img, Point { x: 2, y: 1 }, Point { x: 2, y: 3 });
    assert_eq!(p.width(), 1);
    assert_eq!(p.height(), 1);
    assert_eq!(p.pixel(0, 0), Pixel { r: 0, g: 0, b: 0, a: 0 });
}

#[test]
fn patch_beyond_image_is_transparent() {
    let img = Image::new_filled(2, 2, px(7, 7, 7));
    let p = extract_patch(&img, Point { x: 1, y: 1 }, Point { x: 3, y: 3 });
    assert_eq!(p.width(), 2);
    assert_eq!(p.height(), 2);
    assert_eq!(p.pixel(0, 0), px(7, 7, 7));
    assert_eq!(p.pixel(1, 0), Pixel { r: 0, g: 0, b: 0, a: 0 });
    assert_eq!(p.pixel(0, 1), Pixel { r: 0, g: 0, b: 0, a: 0 });
    assert_eq!(p.pixel(1, 1), Pixel { r: 0, g: 0, b: 0, a: 0 });
}

#[test]
fn resize_fits_inside_preserving_aspect() {
    // 100x50 into 50x50 gives 50x25
    let img = Image::new_filled(100, 50, px(1, 2, 3));
    let r = resize(&img, Size::new(50, 50));
    assert_eq!(r.width(), 50);
    assert_eq!(r.height(), 25);
    assert_eq!(r.pixel(49, 24), px(1, 2, 3));
}

#[test]
fn resize_nearest_picks_source_pixels() {
    // 2x1 upscaled to 4x2: left half from pixel 0, right half from pixel 1
    let img = Image::from_pixels(2, 1, vec![px(10, 0, 0), px(20, 0, 0)]);
    let r = resize(&img, Size::new(4, 2));
    assert_eq!(r.width(), 4);
    assert_eq!(r.height(), 2);
    for y in 0..2 {
        assert_eq!(r.pixel(0, y), px(10, 0, 0));
        assert_eq!(r.pixel(1, y), px(10, 0, 0));
        assert_eq!(r.pixel(2, y), px(20, 0, 0));
        assert_eq!(r.pixel(3, y), px(20, 0, 0));
    }
}

#[test]
fn resize_to_empty_target_is_placeholder() {
    let img = Image::new_filled(10, 10, px(1, 1, 1));
    let r = resize(&img, Size::new(0, 40));
    assert_eq!(r.width(), 1);
    assert_eq!(r.height(), 1);
    assert_eq!(r.pixel(0, 0), Pixel { r: 0, g: 0, b: 0, a: 0 });
}

#[test]
fn negative_inverts_colour_keeps_alpha() {
    let p = Pixel { r: 10, g: 100, b: 250, a: 77 };
    assert_eq!(negative(p), Pixel { r: 245, g: 155, b: 5, a: 77 });
}

#[test]
fn horizontal_line_inverts_one_row() {
    let mut img = Image::new_filled(3, 3, px(10, 20, 30));
    draw_full_horizontal_line(&mut img, 1);
    for x in 0..3 {
        assert_eq!(img.pixel(x, 0), px(10, 20, 30));
        assert_eq!(img.pixel(x, 1), px(245, 235, 225));
        assert_eq!(img.pixel(x, 2), px(10, 20, 30));
    }
    // drawing the same line again erases it
    draw_full_horizontal_line(&mut img, 1);
    for x in 0..3 {
        assert_eq!(img.pixel(x, 1), px(10, 20, 30));
    }
}

#[test]
fn vertical_line_inverts_one_column() {
    let mut img = Image::new_filled(3, 2, px(0, 0, 0));
    draw_full_vertical_line(&mut img, 2);
    assert_eq!(img.pixel(2, 0), px(255, 255, 255));
    assert_eq!(img.pixel(2, 1), px(255, 255, 255));
    assert_eq!(img.pixel(0, 0), px(0, 0, 0));
    assert_eq!(img.pixel(1, 1), px(0, 0, 0));
}

#[test]
fn line_outside_image_changes_nothing() {
    let mut img = Image::new_filled(2, 2, px(5, 5, 5));
    draw_full_horizontal_line(&mut img, -1);
    draw_full_horizontal_line(&mut img, 2);
    draw_full_vertical_line(&mut img, -3);
    draw_full_vertical_line(&mut img, 9);
    for y in 0..2 {
        for x in 0..2 {
            assert_eq!(img.pixel(x, y), px(5, 5, 5));
        }
    }
}

#[test]
fn bytes_round_trip() {
    let pixels = vec![
        Pixel { r: 1, g: 2, b: 3, a: 4 },
        Pixel { r: 5, g: 6, b: 7, a: 8 },
    ];
    let bytes = rgba_to_bytes(pixels.clone());
    assert_eq!(bytes, vec![1, 2, 3, 4, 5, 6, 7, 8]);
    let back = bytes_to_rgba(bytes);
    assert_eq!(back, pixels);
}
