use buddhabrot::ppm::Img;

#[test]
fn new_grid_is_zero() {
    let img = Img::new(3, 4);
    assert_eq!(img.height(), 3);
    assert_eq!(img.width(), 4);
    assert_eq!(img.pixels().len(), 12);
    assert!(img.pixels().iter().all(|&v| v == 0));
    assert_eq!(img.maximum(), 1);
    assert_eq!(img.minimum(), 1000);
}

#[test]
fn increments_count_per_pixel_in_any_interleaving() {
    let mut r = Img::new(4, 4);
    let mut g = Img::new(4, 4);
    for i in 0..7 {
        r.incr_px(1, 2);
        if i % 2 == 0 {
            g.incr_px(1, 2);
        }
        r.incr_px(3, 0);
    }
    r.incr_px(3, 0);
    assert_eq!(r.px(1, 2), 7);
    assert_eq!(r.px(3, 0), 8);
    assert_eq!(g.px(1, 2), 4);
    assert_eq!(r.px(0, 0), 0);
    assert_eq!(r.maximum(), 8);
    assert_eq!(g.maximum(), 4);
    assert_eq!(r.minimum(), 1);
}

#[test]
fn increments_off_the_grid_are_ignored() {
    let mut img = Img::new(2, 3);
    img.incr_px(3, 0);
    img.incr_px(0, 2);
    img.incr_px(-1, 0);
    img.incr_px(0, -1);
    assert!(img.pixels().iter().all(|&v| v == 0));
    assert_eq!(img.maximum(), 1);
}

#[test]
fn rectangular_grid_is_row_major() {
    let mut img = Img::new(2, 3);
    img.set_px(2, 1, 9);
    img.set_px(1, 0, -4);
    assert_eq!(img.pixels(), &vec![0, -4, 0, 0, 0, 9]);
    assert_eq!(img.px(2, 1), 9);
    assert_eq!(img.maximum(), 9);
    assert_eq!(img.minimum(), -4);
}

#[test]
fn running_maximum_is_not_lowered_by_overwrites() {
    let mut img = Img::new(1, 1);
    img.set_px(0, 0, 50);
    img.set_px(0, 0, 3);
    assert_eq!(img.px(0, 0), 3);
    assert_eq!(img.maximum(), 50);
    assert_eq!(img.minimum(), 3);
}

#[test]
fn counter_stops_at_its_limit() {
    let mut img = Img::new(1, 1);
    img.set_px(0, 0, i64::MAX);
    img.incr_px(0, 0);
    assert_eq!(img.px(0, 0), i64::MAX);
}
