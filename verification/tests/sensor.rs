use pimostat::sensor::parse::{parse_millidegrees, Error};

const COLD: &str = "a3 01 4b 46 7f ff 0e 10 d8 : crc=d8 YES\na3 01 4b 46 7f ff 0e 10 d8 t=10234\n";
const HOT: &str = "a3 01 4b 46 7f ff 0e 10 d8 : crc=d8 YES\na3 01 4b 46 7f ff 0e 10 d8 t=32768\n";
const INVALID: &str = "a3 01 4b 46 7f ff 0e 10 d8 : crc=d8 NO\na3 01 4b 46 7f ff 0e 10 d8 t=10234\n";

fn degrees(text: &str) -> f32 {
    parse_millidegrees(text).unwrap() as f32 / 1000.0
}

#[test]
fn sample_parse() {
    assert_eq!(degrees(HOT), 32.768);
    assert_eq!(degrees(COLD), 10.234);
}

#[test]
fn error() {
    if let Err(Error::Checksum) = parse_millidegrees(INVALID) {
    } else {
        panic!("Invalid data did not cause error");
    }
}

#[test]
fn reading_exact_values() {
    assert_eq!(parse_millidegrees(HOT), Ok(32768));
    assert_eq!(parse_millidegrees(COLD), Ok(10234));
}

#[test]
fn reading_negative_and_signed() {
    assert_eq!(parse_millidegrees("YES\nt=-1250\n"), Ok(-1250));
    assert_eq!(parse_millidegrees("YES\nt=+7\n"), Ok(7));
    assert_eq!(parse_millidegrees("YES\nt=-2147483648\n"), Ok(i32::MIN));
    assert_eq!(parse_millidegrees("YES\nt=2147483647\n"), Ok(i32::MAX));
}

#[test]
fn reading_out_of_range_or_malformed() {
    assert_eq!(parse_millidegrees("YES\nt=2147483648\n"), Err(Error::Parse));
    assert_eq!(parse_millidegrees("YES\nt=-2147483649\n"), Err(Error::Parse));
    assert_eq!(parse_millidegrees("YES\nt=\n"), Err(Error::Parse));
    assert_eq!(parse_millidegrees("YES\nt=12a\n"), Err(Error::Parse));
    assert_eq!(parse_millidegrees("YES\nt=-\n"), Err(Error::Parse));
}

#[test]
fn reading_checksum_needs_line_feed() {
    assert_eq!(parse_millidegrees("YES"), Err(Error::Checksum));
    assert_eq!(parse_millidegrees(""), Err(Error::Checksum));
    assert_eq!(parse_millidegrees("yes\nt=1\n"), Err(Error::Checksum));
}

#[test]
fn reading_uses_last_t_equals() {
    assert_eq!(parse_millidegrees("t=1 YES\nx t=2 t=3\n"), Ok(3));
    // Without a second line, what follows the first line's last `t=` is the value text.
    assert_eq!(parse_millidegrees("t=12 YES\n"), Err(Error::Parse));
    assert_eq!(parse_millidegrees("t=\u{a0}12\u{3000}YES\n"), Err(Error::Parse));
}

#[test]
fn reading_trims_unicode_whitespace() {
    assert_eq!(parse_millidegrees("YES\nt=\u{2003}\t42\u{a0} \n"), Ok(42));
}

#[test]
fn reading_only_two_lines_count() {
    assert_eq!(parse_millidegrees("YES\nt=5\nt=6\n"), Ok(5));
    // A second line without `t=` is read as a whole, with the first.
    assert_eq!(parse_millidegrees("YES\n5"), Err(Error::Parse));
}

#[test]
fn reading_written_temperature() {
    assert_eq!(parse_millidegrees("xx : crc=00 YES\nyy t=q t=-123\n"), Ok(-123));
    assert_eq!(parse_millidegrees("YES\nt=0\n"), Ok(0));
}

#[test]
fn checksum_from_first_line_alone() {
    let good = "a3 : crc=d8 YES\n";
    let bad = "a3 : crc=d8 NO\n";
    assert_ne!(parse_millidegrees(good), Err(Error::Checksum));
    assert_eq!(parse_millidegrees(bad), Err(Error::Checksum));
    assert_eq!(parse_millidegrees(&format!("{}t=1\n", bad)), Err(Error::Checksum));
    assert_eq!(parse_millidegrees(&format!("{}t=1\n", good)), Ok(1));
}
