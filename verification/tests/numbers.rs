use looper_engine::rounding::{divide_rounded, divide_to_hundredths, round_even, to_double};
use looper_engine::single::{push_hundredths, push_two_decimals, Single};
use looper_engine::text::{
    chars_of, contains, decimal_text, join, parse_unsigned, push_signed, same_text, split_at_last,
    split_text, to_ascii_lower, trim, words_of,
};

#[test]
fn two_decimals_are_what_a_float_prints() {
    let mut bits = 0u32;
    while bits <= 4.0f32.to_bits() {
        for signed in [bits, bits | 0x8000_0000] {
            let value = f32::from_bits(signed);
            let mut out = String::new();
            push_hundredths(&mut out, Single { bits: signed });
            assert_eq!(out, format!("{value:.2}"), "{value}");
        }
        bits += 65_521;
    }
    for value in [0.0f32, 0.005, 0.015, 0.125, 0.375, 0.995, 1.005, 2.5, 3.999, 4.0] {
        let mut out = String::new();
        push_hundredths(&mut out, Single { bits: value.to_bits() });
        assert_eq!(out, format!("{value:.2}"), "{value}");
    }
    let mut out = String::new();
    push_two_decimals(&mut out, 1_705);
    assert_eq!(out, "17.05");
}

#[test]
fn a_quotient_is_rounded_like_the_machine_rounds_it() {
    let mut n = 1u64;
    while n < 0x10_0000_0000_0000 {
        for d in [1u32, 3, 7, 44_100, 48_000, 96_000, 4_294_967_295] {
            let shown = divide_to_hundredths(n, d);
            let want = format!("{:.2}", n as f64 / d as f64);
            assert_eq!(format!("{}.{:02}", shown / 100, shown % 100), want, "{n}/{d}");
            let tenths = divide_rounded(n, d, 10);
            let want = format!("{:.1}", n as f64 / d as f64);
            assert_eq!(format!("{}.{}", tenths / 10, tenths % 10), want, "{n}/{d}");
        }
        n = n * 5 + 3;
    }
}

#[test]
fn halves_go_to_the_even_neighbour() {
    assert_eq!(round_even(5, 2), 2);
    assert_eq!(round_even(7, 2), 4);
    assert_eq!(round_even(8, 3), 3);
    for n in [0u64, 1, 0x20_0000_0000_0000, 0x20_0000_0000_0001, 0x20_0000_0000_0003, u64::MAX] {
        assert_eq!(to_double(n), n as f64 as u128, "{n}");
    }
}

#[test]
fn texts_are_taken_apart_and_put_together() {
    assert_eq!(trim("  a b \t\n"), "a b");
    assert_eq!(to_ascii_lower("AbC-\u{c4}"), "abc-\u{c4}");
    assert_eq!(words_of("  l  2 0.5 "), vec!["l", "2", "0.5"]);
    assert_eq!(split_text("a+b,c", "+,"), vec!["a", "b", "c"]);
    assert_eq!(split_at_last("a:b:c", ':'), Some(("a:b", "c")));
    assert_eq!(split_at_last("abc", ':'), None);
    assert_eq!(join(&vec!["a".to_string(), "b".to_string()], ", "), "a, b");
    assert!(contains("Focusrite", "usri") && !contains("Focusrite", "usb"));
    assert!(contains("x", ""));
    assert!(same_text("\u{e4}", "\u{e4}") && !same_text("a", "ab"));
    assert_eq!(chars_of("h\u{f6}r"), vec!['h', '\u{f6}', 'r']);
    assert_eq!(decimal_text(u64::MAX), u64::MAX.to_string());
    let mut out = String::new();
    push_signed(&mut out, i64::MIN);
    assert_eq!(out, i64::MIN.to_string());
}

#[test]
fn numbers_are_read_within_their_range() {
    for text in ["0", "7", "+7", "007", "255", "256", "", "+", "-1", "1x", " 1", "18446744073709551616"] {
        assert_eq!(
            parse_unsigned(text, 255),
            text.parse::<u8>().ok().map(|n| n as u64),
            "{text:?}"
        );
    }
}
