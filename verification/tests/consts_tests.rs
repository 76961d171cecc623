use xuper_rust_sdk::consts::{
    bytes_num_decimal, epoch_nanos_as_i64, epoch_secs_as_i64, now_as_nanos, now_as_secs,
    parse_i64, str_as_bigint, str_as_i64, TXVersion,
};
use xuper_rust_sdk::errors::ErrorKind;

#[test]
fn str_as_i64_reads_non_negative_numbers() {
    assert_eq!(str_as_i64("123"), Ok(123));
    assert_eq!(str_as_i64("+7"), Ok(7));
    assert_eq!(str_as_i64("007"), Ok(7));
    assert_eq!(str_as_i64("9223372036854775807"), Ok(i64::MAX));
}

#[test]
fn str_as_i64_errors() {
    assert_eq!(str_as_i64("-1"), Err(ErrorKind::InvalidArguments));
    assert_eq!(str_as_i64("abc"), Err(ErrorKind::ParseError));
    assert_eq!(str_as_i64(""), Err(ErrorKind::ParseError));
    assert_eq!(str_as_i64("-"), Err(ErrorKind::ParseError));
    assert_eq!(str_as_i64("1 "), Err(ErrorKind::ParseError));
    assert_eq!(str_as_i64("9223372036854775808"), Err(ErrorKind::ParseError));
}

#[test]
fn parse_i64_agrees_with_std() {
    for s in ["0", "-0", "+0", "-9223372036854775808", "-9223372036854775809", "12a", "+-1", "--1", "٣", "99999999999999999999999"] {
        assert_eq!(parse_i64(s), s.parse::<i64>().ok(), "{}", s);
    }
}

#[test]
fn str_as_bigint_reads_amounts() {
    let z = str_as_bigint("").unwrap();
    assert_eq!((z.negative, z.magnitude), (false, vec![0]));
    let z = str_as_bigint("0").unwrap();
    assert_eq!((z.negative, z.magnitude), (false, vec![0]));
    let a = str_as_bigint("1_000").unwrap();
    assert_eq!((a.negative, a.magnitude), (false, vec![3, 232]));
    let n = str_as_bigint("-300").unwrap();
    assert_eq!((n.negative, n.magnitude), (true, vec![1, 44]));
    let big = str_as_bigint("18446744073709551616").unwrap();
    assert_eq!(big.magnitude, vec![1, 0, 0, 0, 0, 0, 0, 0, 0]);
    assert_eq!(str_as_bigint("12x").unwrap_err(), ErrorKind::ParseError);
    assert_eq!(str_as_bigint("_1").unwrap_err(), ErrorKind::ParseError);
}

#[test]
fn bytes_num_decimal_reads_big_endian() {
    assert_eq!(bytes_num_decimal(&[1, 0]), "256");
    assert_eq!(bytes_num_decimal(&[]), "0");
    assert_eq!(bytes_num_decimal(&[1, 0, 0, 0, 0, 0, 0, 0, 0]), "18446744073709551616");
}

#[test]
fn clock_conversions() {
    assert_eq!(epoch_nanos_as_i64(2, 5), 2_000_000_005);
    assert_eq!(epoch_secs_as_i64(42), 42);
    assert_eq!(epoch_secs_as_i64(u64::MAX), -1);
    let n = now_as_nanos().unwrap();
    let s = now_as_secs().unwrap();
    assert!(n > 0 && s > 0);
    assert!((n / 1_000_000_000 - s).abs() <= 1);
    assert_eq!(TXVersion, 1);
}

#[test]
fn amounts_read_back_from_decimal() {
    for n in [0i64, 1, 42, 1_000_000, i64::MAX] {
        assert_eq!(str_as_i64(&n.to_string()), Ok(n));
    }
    for text in ["0", "7", "65536", "340282366920938463463374607431768211456"] {
        let b = str_as_bigint(text).unwrap();
        assert!(!b.negative);
        assert_eq!(bytes_num_decimal(&b.magnitude), text);
    }
}

#[test]
fn seconds_are_whole_nanoseconds_of_one_reading() {
    for (secs, nanos) in [(0u64, 0u32), (1_700_000_000, 999_999_999), (9_223_372_035, 854_775_807)] {
        assert_eq!(epoch_nanos_as_i64(secs, nanos) / 1_000_000_000, epoch_secs_as_i64(secs));
    }
}
