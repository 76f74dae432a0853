use dicom_engine::parse::format_date;
use dicom_engine::parse::parse_date;
use dicom_engine::parse::parse_datetime;
use dicom_engine::parse::parse_integer;
use dicom_engine::parse::parse_person_name;
use dicom_engine::parse::parse_time;
use dicom_engine::parse::parse_unsigned;
use dicom_engine::parse::split_at_byte;
use dicom_engine::parse::DicomDate;
use dicom_engine::parse::DicomDateTime;
use dicom_engine::parse::ZoneOffset;
use dicom_engine::parse::DicomTime;
use dicom_engine::value::PrimitiveValue;

#[test]
fn unsigned_numbers_are_read() {
    assert_eq!(parse_unsigned(b"0", 10), Some(0));
    assert_eq!(parse_unsigned(b"007", 10), Some(7));
    assert_eq!(parse_unsigned(b"10", 10), Some(10));
    assert_eq!(parse_unsigned(b"11", 10), None);
    assert_eq!(parse_unsigned(b"", 10), None);
    assert_eq!(parse_unsigned(b"1a", 10), None);
    assert_eq!(parse_unsigned(b"+1", 10), None);
    assert_eq!(parse_unsigned(b"18446744073709551615", u64::MAX), Some(u64::MAX));
    assert_eq!(parse_unsigned(b"18446744073709551616", u64::MAX), None);
    assert_eq!(parse_unsigned(b"99999999999999999999999", u64::MAX), None);
}

#[test]
fn integers_are_read_with_their_sign() {
    assert_eq!(parse_integer(b"-12", -100, 100), Some(-12));
    assert_eq!(parse_integer(b"+12", -100, 100), Some(12));
    assert_eq!(parse_integer(b"12", -100, 100), Some(12));
    assert_eq!(parse_integer(b"-100", -100, 100), Some(-100));
    assert_eq!(parse_integer(b"-101", -100, 100), None);
    assert_eq!(parse_integer(b"101", -100, 100), None);
    assert_eq!(parse_integer(b"-", -100, 100), None);
    assert_eq!(parse_integer(b"", -100, 100), None);
    assert_eq!(parse_integer(b"1-2", -100, 100), None);
    assert_eq!(parse_integer(b"-0", -100, 100), Some(0));
    assert_eq!(parse_integer(b"-9223372036854775808", i64::MIN, i64::MAX), Some(i64::MIN));
    assert_eq!(parse_integer(b"9223372036854775807", i64::MIN, i64::MAX), Some(i64::MAX));
    assert_eq!(parse_integer(b"9223372036854775808", i64::MIN, i64::MAX), None);
    assert_eq!(parse_integer(b"-9223372036854775809", i64::MIN, i64::MAX), None);
    assert_eq!(parse_integer(b"-9223372036854775808", -5, i64::MAX), None);
}

#[test]
fn dates_are_read_by_their_shape() {
    assert_eq!(parse_date(b"20240229"), Some(DicomDate { year: 2024, month: 2, day: 29 }));
    assert_eq!(parse_date(b"19991231"), Some(DicomDate { year: 1999, month: 12, day: 31 }));
    assert_eq!(parse_date(b"00000000"), Some(DicomDate { year: 0, month: 0, day: 0 }));
    assert_eq!(parse_date(b"20241399"), Some(DicomDate { year: 2024, month: 13, day: 99 }));
    assert_eq!(parse_date(b"2024022"), None);
    assert_eq!(parse_date(b"202402290"), None);
    assert_eq!(parse_date(b"2024.2.9"), None);
    assert_eq!(parse_date(b""), None);
}

#[test]
fn dates_are_written_as_eight_digits() {
    assert_eq!(format_date(DicomDate { year: 2024, month: 2, day: 9 }), b"20240209".to_vec());
    assert_eq!(format_date(DicomDate { year: 7, month: 12, day: 31 }), b"00071231".to_vec());
    for d in [
        DicomDate { year: 0, month: 0, day: 0 },
        DicomDate { year: 1987, month: 6, day: 5 },
        DicomDate { year: 9999, month: 99, day: 99 },
    ] {
        assert_eq!(parse_date(&format_date(d)), Some(d));
    }
}

#[test]
fn times_are_read_with_the_parts_that_are_written() {
    assert_eq!(
        parse_time(b"07"),
        Some(DicomTime { hour: 7, minute: 0, second: 0, fraction: 0, fraction_digits: 0, parts: 1 })
    );
    assert_eq!(
        parse_time(b"0730"),
        Some(DicomTime { hour: 7, minute: 30, second: 0, fraction: 0, fraction_digits: 0, parts: 2 })
    );
    assert_eq!(
        parse_time(b"235959"),
        Some(DicomTime { hour: 23, minute: 59, second: 59, fraction: 0, fraction_digits: 0, parts: 3 })
    );
    assert_eq!(
        parse_time(b"235959.5"),
        Some(DicomTime { hour: 23, minute: 59, second: 59, fraction: 5, fraction_digits: 1, parts: 3 })
    );
    assert_eq!(
        parse_time(b"010203.000450"),
        Some(DicomTime { hour: 1, minute: 2, second: 3, fraction: 450, fraction_digits: 6, parts: 3 })
    );
    assert_eq!(parse_time(b"010203.0004501"), None);
    assert_eq!(parse_time(b"010203."), None);
    assert_eq!(parse_time(b"0102034"), None);
    assert_eq!(parse_time(b"0102a3"), None);
    assert_eq!(parse_time(b"010203,5"), None);
    assert_eq!(parse_time(b"1"), None);
    assert_eq!(parse_time(b""), None);
}

#[test]
fn text_is_split_at_a_byte() {
    assert_eq!(split_at_byte(b"a^b^^c", b'^'), vec![b"a".to_vec(), b"b".to_vec(), b"".to_vec(), b"c".to_vec()]);
    assert_eq!(split_at_byte(b"", b'^'), vec![b"".to_vec()]);
    assert_eq!(split_at_byte(b"^", b'^'), vec![b"".to_vec(), b"".to_vec()]);
    assert_eq!(split_at_byte(b" a ", b'^'), vec![b" a ".to_vec()]);
}

#[test]
fn person_names_are_read_by_their_components() {
    let name = parse_person_name(b"Adams^John Robert^Quincy^Rev.^B.A. M.Div.");
    assert_eq!(name.family, b"Adams".to_vec());
    assert_eq!(name.given, b"John Robert".to_vec());
    assert_eq!(name.middle, b"Quincy".to_vec());
    assert_eq!(name.prefix, b"Rev.".to_vec());
    assert_eq!(name.suffix, b"B.A. M.Div.".to_vec());
    let short = parse_person_name(b"Doe^John=ideographic^name=phonetic");
    assert_eq!(short.family, b"Doe".to_vec());
    assert_eq!(short.given, b"John".to_vec());
    assert_eq!(short.middle, Vec::<u8>::new());
    assert_eq!(short.prefix, Vec::<u8>::new());
    assert_eq!(short.suffix, Vec::<u8>::new());
    let empty = parse_person_name(b"");
    assert_eq!(empty.family, Vec::<u8>::new());
    let many = parse_person_name(b"a^b^c^d^e^f");
    assert_eq!(many.suffix, b"e".to_vec());
}

#[test]
fn values_are_made_from_text_and_numbers() {
    assert_eq!(
        PrimitiveValue::from_text(" a \\b"),
        Some(PrimitiveValue::Strings(vec![b"a".to_vec(), b"b".to_vec()]))
    );
    assert_eq!(PrimitiveValue::from_text("\u{3b1}"), None);
    assert_eq!(PrimitiveValue::from_u16(7), PrimitiveValue::U16(vec![7]));
    assert_eq!(PrimitiveValue::from_u32(7), PrimitiveValue::U32(vec![7]));
    assert_eq!(PrimitiveValue::from_bytes(&[1, 2, 3]), PrimitiveValue::Bytes(vec![1, 2, 3]));
    let strings = PrimitiveValue::Strings(vec![b"a".to_vec(), b"b\xe9".to_vec()]);
    assert_eq!(strings.to_text(), Some("a\\b\u{e9}".to_string()));
    assert_eq!(strings.multiplicity(), 2);
    assert_eq!(PrimitiveValue::Text(b"x y".to_vec()).to_text(), Some("x y".to_string()));
    assert_eq!(PrimitiveValue::from_u16(7).to_text(), None);
    assert_eq!(PrimitiveValue::from_u16(7).first_u32(), None);
    assert_eq!(PrimitiveValue::U16(vec![]).first_u16(), None);
    assert_eq!(PrimitiveValue::from_u32(9).first_u32(), Some(9));
}

fn date_only(year: u16, month: u8, day: u8, parts: u8) -> DicomDateTime {
    DicomDateTime {
        year,
        month,
        day,
        hour: 0,
        minute: 0,
        second: 0,
        fraction: 0,
        fraction_digits: 0,
        parts,
        zone: None,
    }
}

#[test]
fn dates_with_times_are_read_with_the_parts_that_are_written() {
    assert_eq!(parse_datetime(b"2024"), Some(date_only(2024, 0, 0, 1)));
    assert_eq!(parse_datetime(b"202402"), Some(date_only(2024, 2, 0, 2)));
    assert_eq!(parse_datetime(b"20240229"), Some(date_only(2024, 2, 29, 3)));
    assert_eq!(
        parse_datetime(b"2024022913"),
        Some(DicomDateTime { hour: 13, parts: 4, ..date_only(2024, 2, 29, 0) })
    );
    assert_eq!(
        parse_datetime(b"202402291330"),
        Some(DicomDateTime { hour: 13, minute: 30, parts: 5, ..date_only(2024, 2, 29, 0) })
    );
    assert_eq!(
        parse_datetime(b"20240229133055"),
        Some(DicomDateTime { hour: 13, minute: 30, second: 55, parts: 6, ..date_only(2024, 2, 29, 0) })
    );
    assert_eq!(
        parse_datetime(b"20240229133055.250"),
        Some(DicomDateTime {
            hour: 13,
            minute: 30,
            second: 55,
            fraction: 250,
            fraction_digits: 3,
            parts: 6,
            ..date_only(2024, 2, 29, 0)
        })
    );
    assert_eq!(
        parse_datetime(b"20240229133055.000001"),
        Some(DicomDateTime {
            hour: 13,
            minute: 30,
            second: 55,
            fraction: 1,
            fraction_digits: 6,
            parts: 6,
            ..date_only(2024, 2, 29, 0)
        })
    );
}

#[test]
fn dates_with_times_are_read_with_their_zone() {
    let east = Some(ZoneOffset { negative: false, hour: 1, minute: 0 });
    let west = Some(ZoneOffset { negative: true, hour: 5, minute: 30 });
    assert_eq!(parse_datetime(b"2024+0100"), Some(DicomDateTime { zone: east, ..date_only(2024, 0, 0, 1) }));
    assert_eq!(
        parse_datetime(b"20241231-0530"),
        Some(DicomDateTime { zone: west, ..date_only(2024, 12, 31, 3) })
    );
    assert_eq!(
        parse_datetime(b"20240229133055.5+0100"),
        Some(DicomDateTime {
            hour: 13,
            minute: 30,
            second: 55,
            fraction: 5,
            fraction_digits: 1,
            parts: 6,
            zone: east,
            ..date_only(2024, 2, 29, 0)
        })
    );
}

#[test]
fn texts_of_another_shape_are_no_dates_with_times() {
    for text in [
        &b""[..],
        b"202",
        b"20240",
        b"2024022",
        b"20240229133055.",
        b"20240229133055.1234567",
        b"2024022913305.5",
        b"2024022913305500",
        b"20240229T1330",
        b"+0100",
        b"2024+010",
        b"2024+01000",
        b"2024 0100",
        b"12345",
    ] {
        assert_eq!(parse_datetime(text), None);
    }
}

#[test]
fn fractions_are_scaled_to_millionths() {
    let time = |fraction: u32, fraction_digits: u8| DicomTime {
        hour: 1,
        minute: 2,
        second: 3,
        fraction,
        fraction_digits,
        parts: 3,
    };
    assert_eq!(time(0, 0).microseconds(), Some(0));
    assert_eq!(time(5, 1).microseconds(), Some(500_000));
    assert_eq!(time(25, 2).microseconds(), Some(250_000));
    assert_eq!(time(250, 3).microseconds(), Some(250_000));
    assert_eq!(time(1, 4).microseconds(), Some(100));
    assert_eq!(time(99_999, 5).microseconds(), Some(999_990));
    assert_eq!(time(450, 6).microseconds(), Some(450));
    assert_eq!(time(999_999, 6).microseconds(), Some(999_999));
    assert_eq!(time(1_000_000, 6).microseconds(), None);
    assert_eq!(time(10, 1).microseconds(), None);
    assert_eq!(time(1, 7).microseconds(), None);
    assert_eq!(time(u32::MAX, 0).microseconds(), None);
    assert_eq!(parse_time(b"010203.000450").unwrap().microseconds(), Some(450));
    assert_eq!(parse_time(b"010203.5").unwrap().microseconds(), Some(500_000));
    assert_eq!(parse_time(b"0102").unwrap().microseconds(), Some(0));
}
