use balance_monitor::icon::{
    centered_text_position, icon_background, icon_fill, inside_rounded_rect, label_font_px,
};
use balance_monitor::money::{icon_label, less_than, whole_units_of, Amount};

fn amount(value: f64) -> Amount {
    Amount { bits: value.to_bits(), shown: format!("{value:.2}") }
}

#[test]
fn less_than_agrees_with_floats() {
    let values = [
        f64::NEG_INFINITY,
        -2.5,
        -0.0,
        0.0,
        1e-300,
        0.5,
        1.0,
        99.99,
        1e300,
        f64::INFINITY,
        f64::NAN,
    ];
    for a in values {
        for b in values {
            assert_eq!(less_than(a.to_bits(), b.to_bits()), a < b, "{a} < {b}");
        }
    }
}

#[test]
fn is_below_threshold() {
    assert!(amount(0.5).is_below(&amount(1.0)));
    assert!(!amount(1.0).is_below(&amount(1.0)));
    assert!(!amount(f64::NAN).is_below(&amount(1.0)));
}

#[test]
fn whole_units_agree_with_cast() {
    let values = [
        f64::NAN,
        f64::NEG_INFINITY,
        -3.7,
        -0.0,
        0.0,
        0.99,
        1.0,
        12.7,
        99.999,
        100.0,
        4503599627370497.0,
        9007199254740993.0,
        1.8e19,
        1e30,
        f64::INFINITY,
        f64::MIN_POSITIVE,
    ];
    for v in values {
        assert_eq!(whole_units_of(v.to_bits()), v.max(0.0) as u64, "{v}");
    }
}

#[test]
fn icon_label_digits_or_ok() {
    assert_eq!(icon_label(5.0f64.to_bits()), "5");
    assert_eq!(icon_label(99.99f64.to_bits()), "99");
    assert_eq!(icon_label(100.0f64.to_bits()), "OK");
    assert_eq!(icon_label((-4.0f64).to_bits()), "0");
    assert_eq!(icon_label(f64::NAN.to_bits()), "0");
}

#[test]
fn rounded_rect_corners() {
    assert!(!inside_rounded_rect(0, 0, 64, 12));
    assert!(!inside_rounded_rect(63, 63, 64, 12));
    assert!(inside_rounded_rect(12, 12, 64, 12));
    assert!(inside_rounded_rect(32, 0, 64, 12));
    assert!(inside_rounded_rect(0, 32, 64, 12));
    assert!(inside_rounded_rect(51, 51, 64, 12));
    assert!(!inside_rounded_rect(2, 2, 64, 12));
}

#[test]
fn fill_colours() {
    assert_eq!(icon_fill("!", false), (185, 70, 60, 255));
    assert_eq!(icon_fill("...", true), (105, 105, 110, 255));
    assert_eq!(icon_fill("5", true), (185, 70, 60, 255));
    assert_eq!(icon_fill("OK", false), (60, 105, 102, 255));
}

#[test]
fn font_sizes() {
    assert_eq!(label_font_px("!"), 48);
    assert_eq!(label_font_px(""), 48);
    assert_eq!(label_font_px("OK"), 44);
    assert_eq!(label_font_px("..."), 34);
}

#[test]
fn background_pixels() {
    let bytes = icon_background("5", false);
    assert_eq!(bytes.len(), 64 * 64 * 4);
    let px = |x: usize, y: usize| {
        let i = 4 * (y * 64 + x);
        (bytes[i], bytes[i + 1], bytes[i + 2], bytes[i + 3])
    };
    assert_eq!(px(0, 0), (0, 0, 0, 0));
    assert_eq!(px(63, 0), (0, 0, 0, 0));
    assert_eq!(px(32, 32), (60, 105, 102, 255));
    assert_eq!(px(0, 32), (60, 105, 102, 255));
    let low = icon_background("5", true);
    assert_eq!(&low[4 * (32 * 64 + 32)..4 * (32 * 64 + 32) + 4], &[185, 70, 60, 255]);
}

#[test]
fn centring_text() {
    assert_eq!(centered_text_position(&vec![], 64, 64), (32, 32));
    assert_eq!(centered_text_position(&vec![(2, -30, 22, 0)], 64, 64), (21, 47));
    assert_eq!(centered_text_position(&vec![(-3, -10, 5, 2), (6, -12, 30, 1)], 64, 64), (18, 37));
    assert_eq!(centered_text_position(&vec![(0, 0, 81, 0)], 64, 64), (-8, 32));
}
