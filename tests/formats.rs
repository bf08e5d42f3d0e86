use buddhabrot::netpbm::{encode_ppm, write_ppm};
use buddhabrot::ppm::Img;
use buddhabrot::ppm_read::{parse_token, read_ppm, PpmError};
use buddhabrot::raster::{encode_png, full_scale_rgb, write_png};

fn channels() -> Vec<Img> {
    let mut r = Img::new(2, 2);
    let mut g = Img::new(2, 2);
    let b = Img::new(2, 2);
    r.set_px(1, 0, 7);
    r.set_px(0, 1, -3);
    g.set_px(1, 1, 12);
    vec![r, g, b]
}

#[test]
fn ppm_text_of_channels() {
    let text = String::from_utf8(write_ppm(&channels())).unwrap();
    assert_eq!(text, "P3\n# Created by leland batey RustPPM\n2 2\n12\n0 0 0\n7 0 0\n-3 0 0\n0 12 0\n");
}

#[test]
fn ppm_of_values() {
    let out = encode_ppm(1, 1, 255, &vec![255], &vec![-10], &vec![1234567890123]);
    assert_eq!(String::from_utf8(out).unwrap(), "P3\n# Created by leland batey RustPPM\n1 1\n255\n255 -10 1234567890123\n");
    let out = encode_ppm(0, 0, i64::MIN, &vec![], &vec![], &vec![]);
    assert_eq!(String::from_utf8(out).unwrap(), "P3\n# Created by leland batey RustPPM\n0 0\n-9223372036854775808\n");
}

#[test]
fn ppm_round_trip() {
    let imgs = channels();
    let text = String::from_utf8(write_ppm(&imgs)).unwrap();
    let back = read_ppm(&text).unwrap();
    assert_eq!(back.len(), 3);
    for c in 0..3 {
        assert_eq!(back[c].pixels(), imgs[c].pixels());
        assert_eq!(back[c].width(), 2);
        assert_eq!(back[c].height(), 2);
    }
}

#[test]
fn reading_drops_comments_and_any_white_space() {
    let text = "# leading note\nP3 # magic\n3 1\n# size above\n255\n1 2 3\t4 5 6\r\n7\u{00A0}8 9#x\n";
    let imgs = read_ppm(text).unwrap();
    assert_eq!(imgs[0].pixels(), &vec![1, 4, 7]);
    assert_eq!(imgs[1].pixels(), &vec![2, 5, 8]);
    assert_eq!(imgs[2].pixels(), &vec![3, 6, 9]);
    assert_eq!(imgs[0].width(), 3);
    assert_eq!(imgs[0].height(), 1);
}

#[test]
fn comment_hides_a_pixel_value() {
    let imgs = read_ppm("P3 1 1 255 4 #5\n 6 7").unwrap();
    assert_eq!(imgs[0].px(0, 0), 4);
    assert_eq!(imgs[1].px(0, 0), 6);
    assert_eq!(imgs[2].px(0, 0), 7);
}

#[test]
fn tokens_before_the_magic_number_are_skipped() {
    let imgs = read_ppm("junk P6 P3 1 1 9 1 2 3").unwrap();
    assert_eq!(imgs[2].px(0, 0), 3);
}

#[test]
fn missing_header_is_an_error() {
    assert_eq!(read_ppm("P3 4 4").err(), Some(PpmError::NoHeader));
    assert_eq!(read_ppm("").err(), Some(PpmError::NoHeader));
    assert_eq!(read_ppm("1 2 3 4").err(), Some(PpmError::NoHeader));
}

#[test]
fn missing_pixel_values_are_an_error() {
    assert_eq!(read_ppm("P3 2 1 255 1 2 3").err(), Some(PpmError::Truncated));
    assert_eq!(read_ppm("P3 2 1 255 1 2 3 4 5").err(), Some(PpmError::Truncated));
    assert_eq!(read_ppm("P3 0 3 255").unwrap().len(), 3);
    assert_eq!(read_ppm("P3 1 1 255 1 2 3 4 5 6").unwrap()[0].px(0, 0), 1);
}

#[test]
fn malformed_numbers_are_errors() {
    assert_eq!(read_ppm("P3 x 2 255").err(), Some(PpmError::BadNumber));
    assert_eq!(read_ppm("P3 1 1 255 1 2 z").err(), Some(PpmError::BadNumber));
    assert_eq!(read_ppm("P3 1 1 255 99999999999999999999").err(), Some(PpmError::BadNumber));
}

#[test]
fn negative_sizes_are_errors() {
    assert_eq!(read_ppm("P3 -1 2 255").err(), Some(PpmError::BadSize));
}

#[test]
fn tokens_parse_as_i64() {
    let t = |s: &str| parse_token(&s.chars().collect());
    assert_eq!(t("42"), Some(42));
    assert_eq!(t("+42"), Some(42));
    assert_eq!(t("-42"), Some(-42));
    assert_eq!(t("-9223372036854775808"), Some(i64::MIN));
    assert_eq!(t("9223372036854775807"), Some(i64::MAX));
    assert_eq!(t("9223372036854775808"), None);
    assert_eq!(t("-"), None);
    assert_eq!(t(""), None);
    assert_eq!(t("4-2"), None);
    assert_eq!(t("007"), Some(7));
}

#[test]
fn full_scale_raster_marks_counted_pixels() {
    let raw = full_scale_rgb(&vec![0, 3, -1], &vec![1, 0, 0], &vec![0, 0, 9]);
    assert_eq!(raw, vec![0, 255, 0, 255, 0, 0, 0, 0, 255]);
}

#[test]
fn png_is_encoded() {
    let png = write_png(&channels()).expect("encodes");
    assert_eq!(&png[..8], &[137, 80, 78, 71, 13, 10, 26, 10]);
    assert!(png.len() > 12);
    let raw = vec![1u8, 2, 3];
    let one = encode_png(1, 1, &raw).expect("encodes");
    assert_ne!(one, raw);
    assert_eq!(&one[1..4], b"PNG");
    assert!(encode_png(0, 1, &vec![]).is_none());
}
