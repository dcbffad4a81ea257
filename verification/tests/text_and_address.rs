use gimmewire::address::Address;
use gimmewire::text::{decimal_text, is_space_char, trim};

#[test]
fn decimal_of_octets() {
    assert_eq!(decimal_text(0), "0");
    assert_eq!(decimal_text(7), "7");
    assert_eq!(decimal_text(10), "10");
    assert_eq!(decimal_text(99), "99");
    assert_eq!(decimal_text(100), "100");
    assert_eq!(decimal_text(205), "205");
    assert_eq!(decimal_text(255), "255");
}

#[test]
fn decimal_agrees_with_std_for_every_octet() {
    for n in 0..=255u8 {
        assert_eq!(decimal_text(n), n.to_string());
    }
}

#[test]
fn address_in_dotted_decimal() {
    assert_eq!(Address::new(10, 0, 0, 3).text(), "10.0.0.3");
    assert_eq!(Address::new(10, 0, 254, 254).text(), "10.0.254.254");
    assert_eq!(Address::new(0, 0, 0, 0).text(), "0.0.0.0");
    assert_eq!(Address::new(255, 255, 255, 255).text(), "255.255.255.255");
}

#[test]
fn address_as_number() {
    assert_eq!(Address::new(10, 0, 0, 2).number(), 0x0A00_0002);
    assert_eq!(Address::new(10, 0, 1, 2).number(), 0x0A00_0102);
    assert_eq!(Address::new(255, 255, 255, 255).number(), u32::MAX);
    assert_eq!(Address::new(0, 0, 0, 0).number(), 0);
}

#[test]
fn pool_membership() {
    assert!(Address::new(10, 0, 0, 2).is_pooled());
    assert!(Address::new(10, 0, 254, 254).is_pooled());
    assert!(!Address::new(10, 0, 0, 0).is_pooled());
    assert!(!Address::new(10, 0, 0, 1).is_pooled());
    assert!(!Address::new(10, 0, 0, 255).is_pooled());
    assert!(!Address::new(10, 0, 255, 2).is_pooled());
    assert!(!Address::new(10, 1, 0, 2).is_pooled());
    assert!(!Address::new(11, 0, 0, 2).is_pooled());
}

#[test]
fn trim_removes_white_space_at_both_ends() {
    assert_eq!(trim("  key \n"), "key");
    assert_eq!(trim("key"), "key");
    assert_eq!(trim("\t\r\n key with  spaces\u{2003}\u{3000}"), "key with  spaces");
    assert_eq!(trim(" \n\t "), "");
    assert_eq!(trim(""), "");
    assert_eq!(trim("a"), "a");
    assert_eq!(trim(" a"), "a");
    assert_eq!(trim("a "), "a");
}

#[test]
fn trim_agrees_with_std() {
    let samples = [
        "",
        " ",
        "x",
        " x ",
        "\u{85}x\u{a0}",
        "\u{1680}x y\u{2028}\u{2029}",
        "\u{202f}\u{205f}x\u{200a}",
        "\u{200b}x\u{200b}",
        "\u{feff}x",
        "\u{b}\u{c}x\u{1c}",
    ];
    for sample in samples {
        assert_eq!(trim(sample), sample.trim());
    }
}

#[test]
fn white_space_agrees_with_std_for_every_character() {
    for code in 0..=0x10FFFFu32 {
        if let Some(c) = char::from_u32(code) {
            assert_eq!(is_space_char(c), c.is_whitespace());
        }
    }
}
