use layer_renderer::layout::{
    fit_scale, layer_coordinate, letterbox, remap_cursor, Fraction, MousePosition, Resolution, Scale,
};

fn res(width: u32, height: u32) -> Resolution {
    Resolution { width, height }
}

#[test]
fn scale_exact_fit() {
    let k = fit_scale(res(320, 240), res(800, 600));
    assert_eq!(k, Scale { num: 800, den: 320 });
    let p = letterbox(res(320, 240), res(800, 600));
    assert_eq!(p.offset_x, Fraction { num: 0, den: 640 });
    assert_eq!(p.offset_y, Fraction { num: 0, den: 640 });
    assert_eq!(p.width, Fraction { num: 256000, den: 320 });
    assert_eq!(p.height, Fraction { num: 192000, den: 320 });
}

#[test]
fn scale_letterboxed_horizontally() {
    let k = fit_scale(res(320, 240), res(1000, 600));
    assert_eq!(k, Scale { num: 600, den: 240 });
    let p = letterbox(res(320, 240), res(1000, 600));
    // offset_x = (1000 - 800) / 2 = 100
    assert_eq!(p.offset_x.num / p.offset_x.den, 100);
    assert_eq!(p.offset_x.num % p.offset_x.den, 0);
    assert_eq!(p.offset_y.num, 0);
    assert_eq!(p.width.num / p.width.den, 800);
    assert_eq!(p.height.num / p.height.den, 600);
}

#[test]
fn scale_letterboxed_vertically() {
    let k = fit_scale(res(320, 240), res(800, 1000));
    assert_eq!(k, Scale { num: 800, den: 320 });
    let p = letterbox(res(320, 240), res(800, 1000));
    // offset_y = (1000 - 600) / 2 = 200
    assert_eq!(p.offset_y.num, 200 * p.offset_y.den);
    assert_eq!(p.offset_x.num, 0);
}

#[test]
fn scale_of_a_screen_without_area() {
    assert_eq!(fit_scale(res(320, 240), res(0, 600)).num, 0);
    assert_eq!(fit_scale(res(320, 240), res(800, 0)).num, 0);
    assert_eq!(remap_cursor(res(320, 240), res(0, 0), 5, 5), None);
}

#[test]
fn cursor_at_screen_centre_maps_to_layer_centre() {
    let m = remap_cursor(res(320, 240), res(800, 600), 400, 300);
    assert_eq!(m, Some(MousePosition { x: 160, y: 120 }));
}

#[test]
fn cursor_in_letterbox_border_is_not_clamped() {
    assert_eq!(remap_cursor(res(320, 240), res(1000, 600), 100, 0), Some(MousePosition { x: 0, y: 0 }));
    assert_eq!(remap_cursor(res(320, 240), res(1000, 600), 99, 0), Some(MousePosition { x: -1, y: 0 }));
    assert_eq!(remap_cursor(res(320, 240), res(1000, 600), 0, -10), Some(MousePosition { x: -40, y: -4 }));
    assert_eq!(remap_cursor(res(320, 240), res(1000, 600), 999, 599), Some(MousePosition { x: 359, y: 239 }));
}

#[test]
fn coordinate_floors_rather_than_truncates() {
    // scale 2, no offset: -1 / 2 floors to -1
    assert_eq!(layer_coordinate(-1, 2, 1, Scale { num: 2, den: 1 }), -1);
    assert_eq!(layer_coordinate(1, 2, 1, Scale { num: 2, den: 1 }), 0);
}

#[test]
fn coordinate_saturates_at_i32_range() {
    let t = res(4_000_000_000, 1);
    let s = res(1, 1);
    let m = remap_cursor(t, s, 1000, 0).unwrap();
    assert_eq!(m.x, i32::MAX);
    let m = remap_cursor(t, s, -1000, 0).unwrap();
    assert_eq!(m.x, i32::MIN);
}

#[test]
fn round_trip_within_one_pixel() {
    let t = res(320, 240);
    let s = res(1000, 600);
    // scale 2.5, offset (100, 0)
    for lx in 0..320i64 {
        let px = (lx * 5) / 2 + 100;
        let m = remap_cursor(t, s, px as i32, 0).unwrap();
        assert!(m.x as i64 == lx || m.x as i64 == lx - 1);
        if (lx * 5) % 2 == 0 {
            assert_eq!(m.x as i64, lx);
        }
    }
    assert_eq!(remap_cursor(t, s, 125, 25).unwrap(), MousePosition { x: 10, y: 10 });
}

#[test]
fn downscaled_layer_maps_many_layer_pixels_to_one() {
    // 1000x1000 on 10x10: scale 1/100
    let m = remap_cursor(res(1000, 1000), res(10, 10), 5, 9).unwrap();
    assert_eq!(m, MousePosition { x: 500, y: 900 });
}
