use chmodrt::error::Error;
use chmodrt::mode::Mode;

#[test]
fn parses_three_digits() {
    let mode = Mode::parse("755").unwrap();
    assert_eq!(mode.bits(), 0o755);
}

#[test]
fn parses_one_digit() {
    assert_eq!(Mode::parse("7").unwrap().bits(), 7);
    assert_eq!(Mode::parse("0").unwrap().bits(), 0);
}

#[test]
fn parses_four_digits() {
    assert_eq!(Mode::parse("4755").unwrap().bits(), 0o4755);
    assert_eq!(Mode::parse("7777").unwrap().bits(), 0o7777);
    assert_eq!(Mode::parse("0644").unwrap().bits(), 0o644);
}

#[test]
fn rejects_the_empty_text() {
    assert_eq!(Mode::parse(""), Err(Error::InvalidMode));
}

#[test]
fn rejects_more_than_four_digits() {
    assert_eq!(Mode::parse("12345"), Err(Error::InvalidMode));
    assert_eq!(Mode::parse("00000"), Err(Error::InvalidMode));
}

#[test]
fn rejects_what_is_no_octal_digit() {
    assert_eq!(Mode::parse("8"), Err(Error::InvalidMode));
    assert_eq!(Mode::parse("79"), Err(Error::InvalidMode));
    assert_eq!(Mode::parse("75a"), Err(Error::InvalidMode));
    assert_eq!(Mode::parse("u+x"), Err(Error::InvalidMode));
    assert_eq!(Mode::parse(" 755"), Err(Error::InvalidMode));
    assert_eq!(Mode::parse("-1"), Err(Error::InvalidMode));
    assert_eq!(Mode::parse("\u{ff17}"), Err(Error::InvalidMode));
}

#[test]
fn renders_octal_without_leading_zeros() {
    assert_eq!(Mode::parse("755").unwrap().octal(), "755");
    assert_eq!(Mode::parse("0644").unwrap().octal(), "644");
    assert_eq!(Mode::parse("0007").unwrap().octal(), "7");
    assert_eq!(Mode::parse("0000").unwrap().octal(), "0");
    assert_eq!(Mode::parse("4755").unwrap().octal(), "4755");
    assert_eq!(Mode::parse("10").unwrap().octal(), "10");
    assert_eq!(Mode::parse("100").unwrap().octal(), "100");
}

#[test]
fn every_mode_round_trips() {
    for bits in 0..=0o7777u16 {
        for width in 1..=4usize {
            let text = format!("{:0width$o}", bits, width = width);
            if text.len() > 4 || text.len() != width {
                continue;
            }
            let mode = Mode::parse(&text).unwrap();
            assert_eq!(mode.bits(), bits);
            let again = Mode::parse(&mode.octal()).unwrap();
            assert_eq!(again, mode);
            assert_eq!(again.bits(), bits);
        }
    }
}

#[test]
fn invalid_mode_has_its_message() {
    assert_eq!(
        Error::InvalidMode.message(),
        "mode must be an octal between one and four digits"
    );
    assert_eq!(Error::Conflict.message(), "conflicting options");
    assert_eq!(Error::Missing.message(), "missing type option");
}
