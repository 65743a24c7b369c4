use fitsrs::card::{
    axis_index, card_integer, card_size, keyword_name, parse_card, same_bytes, BitpixValue,
    FITSHeaderKeyword,
};
use fitsrs::card_value::{is_digit, parse_integer, read_digits, skip_spaces};
use fitsrs::error::Error;

fn record(text: &str) -> Vec<u8> {
    assert!(text.len() <= 80);
    let mut bytes = text.as_bytes().to_vec();
    bytes.resize(80, b' ');
    bytes
}

#[test]
fn integers_in_free_format() {
    assert_eq!(parse_integer(b"64"), Some(64));
    assert_eq!(parse_integer(b"                  64"), Some(64));
    assert_eq!(parse_integer(b"  64   "), Some(64));
    assert_eq!(parse_integer(b"-32"), Some(-32));
    assert_eq!(parse_integer(b"   -64 / bits per pixel"), Some(-64));
    assert_eq!(parse_integer(b"+7"), Some(7));
    assert_eq!(parse_integer(b"2/two axes"), Some(2));
    assert_eq!(parse_integer(b"0"), Some(0));
    assert_eq!(parse_integer(b"-0"), Some(0));
    assert_eq!(parse_integer(b"000123"), Some(123));
    assert_eq!(parse_integer(b"12 / 34"), Some(12));
}

#[test]
fn what_is_no_integer() {
    assert_eq!(parse_integer(b""), None);
    assert_eq!(parse_integer(b"      "), None);
    assert_eq!(parse_integer(b"-"), None);
    assert_eq!(parse_integer(b"+"), None);
    assert_eq!(parse_integer(b"- 5"), None);
    assert_eq!(parse_integer(b"--5"), None);
    assert_eq!(parse_integer(b"12abc"), None);
    assert_eq!(parse_integer(b"12 34"), None);
    assert_eq!(parse_integer(b"1.5"), None);
    assert_eq!(parse_integer(b"T"), None);
    assert_eq!(parse_integer(b"'64'"), None);
    assert_eq!(parse_integer(b"/ only a comment"), None);
    assert_eq!(parse_integer(b"\t64"), None);
    assert_eq!(parse_integer(b"64\n"), None);
}

#[test]
fn integers_at_the_limits_of_64_bits() {
    assert_eq!(parse_integer(b"9223372036854775807"), Some(i64::MAX));
    assert_eq!(parse_integer(b"-9223372036854775808"), Some(i64::MIN));
    assert_eq!(parse_integer(b"9223372036854775808"), None);
    assert_eq!(parse_integer(b"-9223372036854775809"), None);
    assert_eq!(parse_integer(b"18446744073709551616"), None);
    assert_eq!(parse_integer(b"99999999999999999999999999999999999999999"), None);
    assert_eq!(parse_integer(b"0000000000000000000000000000009223372036854775807"), Some(i64::MAX));
}

#[test]
fn spaces_and_digits() {
    assert_eq!(skip_spaces(b"   ab  ", 0), 3);
    assert_eq!(skip_spaces(b"   ab  ", 3), 3);
    assert_eq!(skip_spaces(b"   ab  ", 5), 7);
    assert_eq!(skip_spaces(b"   ab  ", 7), 7);
    assert_eq!(skip_spaces(b"", 0), 0);
    assert_eq!(read_digits(b"ab123c", 2), (5, Some(123)));
    assert_eq!(read_digits(b"ab123c", 0), (0, Some(0)));
    assert_eq!(read_digits(b"ab123", 5), (5, Some(0)));
    assert_eq!(read_digits(b"9223372036854775808", 0), (19, Some(1 << 63)));
    assert_eq!(read_digits(b"9223372036854775809", 0), (19, None));
    assert_eq!(read_digits(b"92233720368547758090 ", 0), (20, None));
    assert!(is_digit(b'0') && is_digit(b'5') && is_digit(b'9'));
    assert!(!is_digit(b'/') && !is_digit(b':') && !is_digit(b' ') && !is_digit(b'a'));
}

#[test]
fn keyword_is_the_first_eight_bytes_without_padding() {
    assert_eq!(keyword_name(&record("SIMPLE  =                    T")), b"SIMPLE");
    assert_eq!(keyword_name(&record("END")), b"END");
    assert_eq!(keyword_name(&record("")), b"");
    assert_eq!(keyword_name(&record("DATE-OBS= '2020-01-01'")), b"DATE-OBS");
    assert_eq!(keyword_name(&record("LONGKEYWORD")), b"LONGKEYW");
    assert_eq!(keyword_name(&record("A B")), b"A B");
    assert_eq!(keyword_name(&record("  X")), b"  X");
    assert_eq!(keyword_name(b"NAXIS   "), b"NAXIS");
    assert!(same_bytes(b"NAXIS", b"NAXIS"));
    assert!(!same_bytes(b"NAXIS", b"NAXIS1"));
    assert!(!same_bytes(b"NAXIS", b"NAXIT"));
    assert!(same_bytes(b"", b""));
}

#[test]
fn axis_keywords() {
    assert_eq!(axis_index(b"NAXIS1"), Some(1));
    assert_eq!(axis_index(b"NAXIS2"), Some(2));
    assert_eq!(axis_index(b"NAXIS10"), Some(10));
    assert_eq!(axis_index(b"NAXIS999"), Some(999));
    assert_eq!(axis_index(b"NAXIS0"), Some(0));
    assert_eq!(axis_index(b"NAXIS01"), Some(1));
    assert_eq!(axis_index(b"NAXIS"), None);
    assert_eq!(axis_index(b"NAXIS1A"), None);
    assert_eq!(axis_index(b"NAXISA"), None);
    assert_eq!(axis_index(b"NAXIS 1"), None);
    assert_eq!(axis_index(b"NAXIS+1"), None);
    assert_eq!(axis_index(b"NAXIS1234"), None);
    assert_eq!(axis_index(b"MAXIS1"), None);
    assert_eq!(axis_index(b""), None);
}

#[test]
fn integer_value_needs_the_value_indicator() {
    assert_eq!(card_integer(&record("BITPIX  =                  -32")), Some(-32));
    assert_eq!(card_integer(&record("BITPIX  = -32")), Some(-32));
    assert_eq!(card_integer(&record("BITPIX  =-32")), None);
    assert_eq!(card_integer(&record("BITPIX    -32")), None);
    assert_eq!(card_integer(&record("BITPIX =  -32")), None);
    assert_eq!(card_integer(&record("BITPIX  =")), None);
    assert_eq!(card_size(&record("NAXIS   =                    2")), Some(2));
    assert_eq!(card_size(&record("NAXIS   =                    0")), Some(0));
    assert_eq!(card_size(&record("NAXIS   =                   -1")), None);
    assert_eq!(card_size(&record("NAXIS   =                    x")), None);
    // The value field ends with the record.
    let mut long = record("NAXIS   = 1");
    long[79] = b'2';
    assert_eq!(card_size(&long), None);
    long.extend_from_slice(b"345");
    long[79] = b' ';
    assert_eq!(card_size(&long), Some(1));
}

#[test]
fn cards_by_keyword() {
    assert_eq!(
        parse_card(&record("SIMPLE  =                    T / conforms"), 0),
        Ok((&b"SIMPLE"[..], FITSHeaderKeyword::Simple))
    );
    assert_eq!(parse_card(&record("SIMPLE"), 0), Ok((&b"SIMPLE"[..], FITSHeaderKeyword::Simple)));
    assert_eq!(
        parse_card(&record("BITPIX  =                   16 / bits"), 80),
        Ok((&b"BITPIX"[..], FITSHeaderKeyword::Bitpix(BitpixValue::I16)))
    );
    assert_eq!(
        parse_card(&record("NAXIS   =                    3"), 160),
        Ok((&b"NAXIS"[..], FITSHeaderKeyword::Naxis(3)))
    );
    assert_eq!(
        parse_card(&record("NAXIS12 =                 1024"), 160),
        Ok((&b"NAXIS12"[..], FITSHeaderKeyword::NaxisSize { idx: 12, size: 1024 }))
    );
    assert_eq!(parse_card(&record("END"), 0), Ok((&b"END"[..], FITSHeaderKeyword::End)));
    assert_eq!(
        parse_card(&record("COMMENT = 12"), 0),
        Ok((&b"COMMENT"[..], FITSHeaderKeyword::Other))
    );
    assert_eq!(
        parse_card(&record("BSCALE  =                  1.5"), 0),
        Ok((&b"BSCALE"[..], FITSHeaderKeyword::Other))
    );
    assert_eq!(parse_card(&record(""), 0), Ok((&b""[..], FITSHeaderKeyword::Other)));
    assert_eq!(
        parse_card(&record("simple  =                    T"), 0),
        Ok((&b"simple"[..], FITSHeaderKeyword::Other))
    );
    assert_eq!(
        parse_card(&record("ENDING"), 0),
        Ok((&b"ENDING"[..], FITSHeaderKeyword::Other))
    );
    assert_eq!(
        parse_card(&record(" END"), 0),
        Ok((&b" END"[..], FITSHeaderKeyword::Other))
    );
}

#[test]
fn cards_that_fail() {
    assert_eq!(
        parse_card(&record("BITPIX  =                  abc"), 80),
        Err(Error::MalformedCard { position: 80 })
    );
    assert_eq!(
        parse_card(&record("BITPIX                      16"), 80),
        Err(Error::MalformedCard { position: 80 })
    );
    assert_eq!(
        parse_card(&record("BITPIX  =                   12"), 80),
        Err(Error::UnsupportedBitpix { position: 80 })
    );
    assert_eq!(
        parse_card(&record("BITPIX  = 99999999999999999999"), 80),
        Err(Error::MalformedCard { position: 80 })
    );
    assert_eq!(
        parse_card(&record("NAXIS   =                   -2"), 160),
        Err(Error::MalformedCard { position: 160 })
    );
    assert_eq!(
        parse_card(&record("NAXIS   = 'two'"), 160),
        Err(Error::MalformedCard { position: 160 })
    );
    assert_eq!(
        parse_card(&record("NAXIS1  =                  6.4"), 240),
        Err(Error::MalformedCard { position: 240 })
    );
    assert_eq!(
        parse_card(&record("NAXIS1  64"), 240),
        Err(Error::MalformedCard { position: 240 })
    );
    assert_eq!(parse_card(&record("END")[..79], 7), Err(Error::Incomplete { needed: 1 }));
    assert_eq!(parse_card(b"SIMPLE", 7), Err(Error::Incomplete { needed: 74 }));
    assert_eq!(parse_card(b"", 7), Err(Error::Incomplete { needed: 80 }));
}

#[test]
fn bitpix_codes() {
    assert_eq!(BitpixValue::from_code(8), Some(BitpixValue::U8));
    assert_eq!(BitpixValue::from_code(16), Some(BitpixValue::I16));
    assert_eq!(BitpixValue::from_code(32), Some(BitpixValue::I32));
    assert_eq!(BitpixValue::from_code(64), Some(BitpixValue::I64));
    assert_eq!(BitpixValue::from_code(-32), Some(BitpixValue::F32));
    assert_eq!(BitpixValue::from_code(-64), Some(BitpixValue::F64));
    for code in [0, 1, -1, -8, -16, 7, 9, 24, 33, 128, i64::MAX, i64::MIN] {
        assert_eq!(BitpixValue::from_code(code), None);
    }
    assert_eq!(BitpixValue::U8.width(), 1);
    assert_eq!(BitpixValue::I16.width(), 2);
    assert_eq!(BitpixValue::I32.width(), 4);
    assert_eq!(BitpixValue::I64.width(), 8);
    assert_eq!(BitpixValue::F32.width(), 4);
    assert_eq!(BitpixValue::F64.width(), 8);
}
