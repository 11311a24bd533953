use chmodrt::answer::{decide, whitespace, Decision};

#[test]
fn y_proceeds() {
    assert_eq!(decide("y"), Some(Decision::Proceed));
    assert_eq!(decide("Y"), Some(Decision::Proceed));
    assert_eq!(decide("y\n"), Some(Decision::Proceed));
    assert_eq!(decide("  \tY \r\n"), Some(Decision::Proceed));
}

#[test]
fn n_skips() {
    assert_eq!(decide("n"), Some(Decision::Skip));
    assert_eq!(decide("N"), Some(Decision::Skip));
    assert_eq!(decide("n\n"), Some(Decision::Skip));
    assert_eq!(decide("\u{a0}n\u{3000}"), Some(Decision::Skip));
}

#[test]
fn anything_else_decides_nothing() {
    assert_eq!(decide(""), None);
    assert_eq!(decide("\n"), None);
    assert_eq!(decide("   "), None);
    assert_eq!(decide("yes"), None);
    assert_eq!(decide("no"), None);
    assert_eq!(decide("y n"), None);
    assert_eq!(decide("yy"), None);
    assert_eq!(decide("x"), None);
    assert_eq!(decide("\u{ff}"), None);
}

#[test]
fn decides_as_trimming_and_lowercasing_would() {
    let lines = [
        "y", "Y", "n", "N", " y", "n ", "\ty\n", "\u{85}N\u{2028}", "yn", "", " ", "q", "\u{d1}",
        "\u{200b}y", "y\u{feff}", "K", "\u{212a}", "0", "\u{ff59}", "\u{ff4e}",
    ];
    for line in lines {
        let word = line.trim().to_lowercase();
        let expected = match word.as_str() {
            "y" => Some(Decision::Proceed),
            "n" => Some(Decision::Skip),
            _ => None,
        };
        assert_eq!(decide(line), expected, "line {:?}", line);
    }
}

#[test]
fn whitespace_is_what_the_standard_library_calls_so() {
    for code in 0..=0x11000u32 {
        if let Some(c) = char::from_u32(code) {
            assert_eq!(whitespace(c), c.is_whitespace(), "code point {:x}", code);
        }
    }
}
