use fitsrs::error::{Error, Mandatory};
use fitsrs::primary_header::{BitpixValue, FITSHeaderKeyword, PrimaryHeader};
use fitsrs::shape::num_items;
use fitsrs::{DataType, Fits};

/// One record: `text` padded with spaces to 80 bytes.
fn record(text: &str) -> Vec<u8> {
    assert!(text.len() <= 80);
    let mut bytes = text.as_bytes().to_vec();
    bytes.resize(80, b' ');
    bytes
}

/// A record in fixed format: keyword, value indicator, and the value right
/// justified in columns 11 to 30.
fn value_record(keyword: &str, value: &str) -> Vec<u8> {
    record(&format!("{:<8}= {:>20}", keyword, value))
}

/// The records of `texts`, followed by spaces up to a multiple of 2880 bytes.
fn header_block(records: &[Vec<u8>]) -> Vec<u8> {
    let mut bytes = Vec::new();
    for r in records {
        bytes.extend_from_slice(r);
    }
    while bytes.len() % 2880 != 0 {
        bytes.push(b' ');
    }
    bytes
}

fn image_header(bitpix: &str, axes: &[usize]) -> Vec<u8> {
    let mut records = vec![
        value_record("SIMPLE", "T"),
        value_record("BITPIX", bitpix),
        value_record("NAXIS", &axes.len().to_string()),
    ];
    for (i, size) in axes.iter().enumerate() {
        records.push(value_record(&format!("NAXIS{}", i + 1), &size.to_string()));
    }
    records.push(record("END"));
    header_block(&records)
}

#[test]
fn test_fits_tile() {
    let mut buf = image_header("-32", &[64, 64]);
    buf.extend(std::iter::repeat(0u8).take(64 * 64 * 4));
    let Fits { header, .. } = Fits::from_bytes_slice(&buf).unwrap();
    let PrimaryHeader { cards, .. } = header;

    let cards_expect = vec![
        (&b"SIMPLE"[..], FITSHeaderKeyword::Simple),
        (&b"BITPIX"[..], FITSHeaderKeyword::Bitpix(BitpixValue::F32)),
        (&b"NAXIS"[..], FITSHeaderKeyword::Naxis(2)),
        (&b"NAXIS1"[..], FITSHeaderKeyword::NaxisSize { idx: 1, size: 64 }),
        (&b"NAXIS2"[..], FITSHeaderKeyword::NaxisSize { idx: 2, size: 64 }),
    ];
    assert_eq!(cards, cards_expect);
    println!("{:?}", cards);
}

#[test]
fn test_fits_tile2() {
    let mut buf = image_header("-32", &[3, 2]);
    buf.extend(std::iter::repeat(0u8).take(3 * 2 * 4));
    let Fits { data, .. } = Fits::from_bytes_slice(&buf).unwrap();

    match data {
        DataType::F32(v) => assert_eq!(v.0.len(), 6),
        _ => unreachable!(),
    };
}

#[test]
fn test_fits_tile3() {
    let mut buf = image_header("16", &[2, 2]);
    buf.extend_from_slice(&[0, 1, 0xff, 0xff, 0x80, 0x00, 0x7f, 0xff]);
    let Fits { data, .. } = Fits::from_bytes_slice(&buf).unwrap();

    match data {
        DataType::I16(v) => {
            println!("{:?}", v);
            assert_eq!(v.0, vec![1, -1, i16::MIN, i16::MAX]);
        }
        _ => unreachable!(),
    };
}

#[test]
fn float_image_of_64_by_64() {
    let mut buf = image_header("-32", &[64, 64]);
    assert_eq!(buf.len(), 2880);
    for i in 0..4096u32 {
        buf.extend_from_slice(&(i as f32 * 0.5).to_be_bytes());
    }
    assert_eq!(buf.len(), 2880 + 16384);
    let fits = Fits::from_bytes_slice(&buf).unwrap();
    assert_eq!(fits.header.get_naxis(), 2);
    assert_eq!(fits.header.get_axis_size(1), Some(64));
    assert_eq!(fits.header.get_axis_size(2), Some(64));
    assert_eq!(fits.header.get_bitpix(), BitpixValue::F32);
    assert_eq!(num_items(&fits.header), Ok(4096));
    match fits.data {
        DataType::F32(unit) => {
            assert_eq!(unit.0.len(), 4096);
            for (i, bits) in unit.0.iter().enumerate() {
                assert_eq!(f32::from_bits(*bits), i as f32 * 0.5);
            }
        }
        _ => panic!("not a unit of 32 bit floating-point numbers"),
    }
}

#[test]
fn float_image_starting_with_space_bytes() {
    // 0x20202020 is a valid bit pattern: no byte of the data unit is padding.
    let mut buf = image_header("-32", &[2]);
    buf.extend_from_slice(&[0x20, 0x20, 0x20, 0x20, 0x3f, 0xc0, 0x00, 0x00]);
    let fits = Fits::from_bytes_slice(&buf).unwrap();
    match fits.data {
        DataType::F32(unit) => {
            assert_eq!(unit.0, vec![0x2020_2020, 0x3fc0_0000]);
            assert_eq!(f32::from_bits(unit.0[1]), 1.5);
        }
        _ => panic!("not a unit of 32 bit floating-point numbers"),
    }
}

#[test]
fn missing_axis_card() {
    let buf = header_block(&[
        value_record("SIMPLE", "T"),
        value_record("BITPIX", "-32"),
        value_record("NAXIS", "2"),
        value_record("NAXIS1", "64"),
        record("END"),
    ]);
    assert_eq!(
        Fits::from_bytes_slice(&buf),
        Err(Error::MissingMandatory { keyword: Mandatory::NaxisSize, position: 320 })
    );
}

#[test]
fn truncated_data_unit_is_incomplete() {
    let mut buf = image_header("-32", &[64, 64]);
    buf.extend(std::iter::repeat(0u8).take(16384 - 100));
    assert_eq!(Fits::from_bytes_slice(&buf), Err(Error::Incomplete { needed: 100 }));
    let buf = image_header("16", &[3]);
    assert_eq!(Fits::from_bytes_slice(&buf), Err(Error::Incomplete { needed: 6 }));
}

#[test]
fn unsupported_bitpix() {
    for code in ["12", "0", "-16", "-8", "128", "-33", "24"] {
        let buf = image_header(code, &[1]);
        assert_eq!(
            Fits::from_bytes_slice(&buf),
            Err(Error::UnsupportedBitpix { position: 80 }),
            "BITPIX = {}",
            code
        );
    }
}

#[test]
fn every_bitpix_code() {
    let expected = [
        ("8", BitpixValue::U8, 1),
        ("16", BitpixValue::I16, 2),
        ("32", BitpixValue::I32, 4),
        ("64", BitpixValue::I64, 8),
        ("-32", BitpixValue::F32, 4),
        ("-64", BitpixValue::F64, 8),
    ];
    for (code, bitpix, width) in expected {
        let mut buf = image_header(code, &[3]);
        buf.extend(std::iter::repeat(0u8).take(3 * width));
        let fits = Fits::from_bytes_slice(&buf).unwrap();
        assert_eq!(fits.header.get_bitpix(), bitpix);
        assert_eq!(bitpix.width(), width);
    }
}

#[test]
fn no_axis_gives_one_element() {
    let mut buf = image_header("16", &[]);
    buf.extend_from_slice(&[0x12, 0x34]);
    let fits = Fits::from_bytes_slice(&buf).unwrap();
    assert_eq!(fits.header.get_naxis(), 0);
    assert_eq!(fits.header.get_axis_size(1), None);
    assert_eq!(num_items(&fits.header), Ok(1));
    assert_eq!(fits.data, DataType::I16(fitsrs::DataUnitI16(vec![0x1234])));
    // The one element is owed: without its bytes the buffer is incomplete.
    let buf = image_header("16", &[]);
    assert_eq!(Fits::from_bytes_slice(&buf), Err(Error::Incomplete { needed: 2 }));
}

#[test]
fn element_count_is_the_product_of_the_axes() {
    let mut buf = image_header("8", &[2, 3, 5]);
    let data: Vec<u8> = (0..40u8).collect();
    buf.extend_from_slice(&data);
    let fits = Fits::from_bytes_slice(&buf).unwrap();
    assert_eq!(num_items(&fits.header), Ok(30));
    match &fits.data {
        // 30 bytes are taken; the 10 bytes that follow are left alone.
        DataType::U8(unit) => assert_eq!(unit.0, &data[..30]),
        _ => panic!("not a unit of bytes"),
    }
    let mut buf = image_header("64", &[2, 3]);
    buf.extend(std::iter::repeat(1u8).take(6 * 8 + 5));
    match Fits::from_bytes_slice(&buf).unwrap().data {
        DataType::I64(unit) => assert_eq!(unit.0, vec![0x0101_0101_0101_0101; 6]),
        _ => panic!("not a unit of 64 bit integers"),
    }
}

#[test]
fn axis_of_size_zero_gives_no_element() {
    let buf = image_header("32", &[4, 0, 7]);
    let fits = Fits::from_bytes_slice(&buf).unwrap();
    assert_eq!(num_items(&fits.header), Ok(0));
    assert_eq!(fits.data, DataType::I32(fitsrs::DataUnitI32(vec![])));
    // The product is 0 even where the sizes before the empty axis are huge.
    let big = (usize::MAX / 2).to_string();
    let buf = header_block(&[
        value_record("SIMPLE", "T"),
        value_record("BITPIX", "8"),
        value_record("NAXIS", "3"),
        value_record("NAXIS1", &big),
        value_record("NAXIS2", &big),
        value_record("NAXIS3", "0"),
        record("END"),
    ]);
    let (_, header) = PrimaryHeader::new(&buf).unwrap();
    assert_eq!(num_items(&header), Ok(0));
}

#[test]
fn element_count_overflow() {
    let big = (usize::MAX / 2).to_string();
    let buf = header_block(&[
        value_record("SIMPLE", "T"),
        value_record("BITPIX", "8"),
        value_record("NAXIS", "2"),
        value_record("NAXIS1", &big),
        value_record("NAXIS2", "3"),
        record("END"),
    ]);
    let (_, header) = PrimaryHeader::new(&buf).unwrap();
    assert_eq!(num_items(&header), Err(Error::Overflow));
    assert_eq!(Fits::from_bytes_slice(&buf), Err(Error::Overflow));
}

#[test]
fn byte_length_overflow() {
    // The number of elements fits, the number of bytes does not.
    let big = (usize::MAX / 2).to_string();
    let buf = header_block(&[
        value_record("SIMPLE", "T"),
        value_record("BITPIX", "-64"),
        value_record("NAXIS", "1"),
        value_record("NAXIS1", &big),
        record("END"),
    ]);
    let (rest, header) = PrimaryHeader::new(&buf).unwrap();
    assert_eq!(num_items(&header), Ok(usize::MAX / 2));
    assert_eq!(DataType::parse(rest, BitpixValue::F64, usize::MAX / 2), Err(Error::Overflow));
    assert_eq!(Fits::from_bytes_slice(&buf), Err(Error::Overflow));
}

#[test]
fn header_block_is_a_multiple_of_2880_bytes() {
    // 5 records: one block.
    let mut buf = image_header("8", &[4]);
    buf.extend_from_slice(&[1, 2, 3, 4, 5, 6]);
    let (rest, _) = PrimaryHeader::new(&buf).unwrap();
    assert_eq!(buf.len() - rest.len(), 2880);
    assert_eq!(rest, &[1, 2, 3, 4, 5, 6]);

    // 36 records with END as the last: still one block, with no padding.
    let mut records = vec![
        value_record("SIMPLE", "T"),
        value_record("BITPIX", "8"),
        value_record("NAXIS", "0"),
    ];
    for _ in 0..32 {
        records.push(record("COMMENT nothing to see"));
    }
    records.push(record("END"));
    assert_eq!(records.len(), 36);
    let mut buf = header_block(&records);
    assert_eq!(buf.len(), 2880);
    buf.push(9);
    let (rest, header) = PrimaryHeader::new(&buf).unwrap();
    assert_eq!(rest, &[9]);
    assert_eq!(header.cards.len(), 35);

    // 37 records: two blocks.
    records.insert(3, record("HISTORY one more"));
    let mut buf = header_block(&records);
    assert_eq!(buf.len(), 5760);
    buf.push(9);
    let (rest, header) = PrimaryHeader::new(&buf).unwrap();
    assert_eq!(buf.len() - rest.len(), 5760);
    assert_eq!(rest, &[9]);
    assert_eq!(header.cards.len(), 36);
}

#[test]
fn padding_is_not_looked_at() {
    let mut buf = image_header("8", &[2]);
    for byte in buf[400..2880].iter_mut() {
        *byte = 0xa5;
    }
    buf.extend_from_slice(&[7, 8]);
    let fits = Fits::from_bytes_slice(&buf).unwrap();
    assert_eq!(fits.data, DataType::U8(fitsrs::DataUnitU8(&[7, 8])));
}

#[test]
fn header_block_cut_short_is_incomplete() {
    let buf = image_header("8", &[2]);
    // In the padding.
    assert_eq!(PrimaryHeader::new(&buf[..2000]), Err(Error::Incomplete { needed: 880 }));
    assert_eq!(PrimaryHeader::new(&buf[..400]), Err(Error::Incomplete { needed: 2480 }));
    // In the middle of the END record.
    assert_eq!(PrimaryHeader::new(&buf[..350]), Err(Error::Incomplete { needed: 50 }));
    // Before any END record.
    assert_eq!(PrimaryHeader::new(&buf[..320]), Err(Error::Incomplete { needed: 80 }));
    assert_eq!(PrimaryHeader::new(&buf[..0]), Err(Error::Incomplete { needed: 80 }));
    assert_eq!(Fits::from_bytes_slice(&buf[..1]), Err(Error::Incomplete { needed: 79 }));
}

#[test]
fn parsing_twice_gives_the_same() {
    let mut buf = image_header("-64", &[2, 2]);
    buf.extend_from_slice(&1.0f64.to_be_bytes());
    buf.extend_from_slice(&f64::NAN.to_be_bytes());
    buf.extend_from_slice(&(-2.5f64).to_be_bytes());
    buf.extend_from_slice(&f64::INFINITY.to_be_bytes());
    let first = Fits::from_bytes_slice(&buf);
    let second = Fits::from_bytes_slice(&buf);
    assert!(first.is_ok());
    assert_eq!(first, second);
    let fits = first.unwrap();
    match &fits.data {
        DataType::F64(unit) => {
            assert_eq!(f64::from_bits(unit.0[0]), 1.0);
            assert!(f64::from_bits(unit.0[1]).is_nan());
            assert_eq!(unit.0[1], f64::NAN.to_bits());
            assert_eq!(f64::from_bits(unit.0[2]), -2.5);
            assert_eq!(f64::from_bits(unit.0[3]), f64::INFINITY);
        }
        _ => panic!("not a unit of 64 bit floating-point numbers"),
    }
    // An error comes out the same way twice, too.
    assert_eq!(Fits::from_bytes_slice(&buf[..2890]), Fits::from_bytes_slice(&buf[..2890]));
    assert_eq!(Fits::from_bytes_slice(&buf[..2890]), Err(Error::Incomplete { needed: 22 }));
}

#[test]
fn bytes_are_a_view_of_the_buffer() {
    let mut buf = image_header("8", &[5]);
    buf.extend_from_slice(&[0, 255, 32, 10, 13, 99]);
    let fits = Fits::from_bytes_slice(&buf).unwrap();
    match fits.data {
        DataType::U8(unit) => {
            assert_eq!(unit.0, &[0, 255, 32, 10, 13]);
            assert!(std::ptr::eq(unit.0.as_ptr(), buf[2880..].as_ptr()));
        }
        _ => panic!("not a unit of bytes"),
    }
}

#[test]
fn big_endian_values_of_every_width() {
    let bytes: Vec<u8> = vec![
        0x00, 0x01, 0x02, 0x03, 0x04, 0x05, 0x06, 0x07, 0xff, 0xfe, 0xfd, 0xfc, 0xfb, 0xfa, 0xf9,
        0xf8,
    ];
    assert_eq!(
        DataType::parse(&bytes, BitpixValue::I16, 8),
        Ok(DataType::I16(fitsrs::DataUnitI16(vec![
            0x0001, 0x0203, 0x0405, 0x0607, -2, -516, -1030, -1544
        ])))
    );
    assert_eq!(
        DataType::parse(&bytes, BitpixValue::I32, 4),
        Ok(DataType::I32(fitsrs::DataUnitI32(vec![0x0001_0203, 0x0405_0607, -66052, -67438088])))
    );
    assert_eq!(
        DataType::parse(&bytes, BitpixValue::I64, 2),
        Ok(DataType::I64(fitsrs::DataUnitI64(vec![
            0x0001_0203_0405_0607,
            -283686952306184
        ])))
    );
    assert_eq!(
        DataType::parse(&bytes, BitpixValue::F32, 4),
        Ok(DataType::F32(fitsrs::DataUnitF32(vec![
            0x0001_0203,
            0x0405_0607,
            0xfffe_fdfc,
            0xfbfa_f9f8
        ])))
    );
    assert_eq!(
        DataType::parse(&bytes, BitpixValue::F64, 2),
        Ok(DataType::F64(fitsrs::DataUnitF64(vec![
            0x0001_0203_0405_0607,
            0xfffe_fdfc_fbfa_f9f8
        ])))
    );
    assert_eq!(
        DataType::parse(&bytes, BitpixValue::U8, 16),
        Ok(DataType::U8(fitsrs::DataUnitU8(&bytes)))
    );
}

#[test]
fn data_unit_takes_only_its_bytes() {
    let bytes: Vec<u8> = vec![0x12, 0x34, 0x56, 0x78, 0x9a, 0xbc];
    assert_eq!(
        DataType::parse(&bytes, BitpixValue::I16, 2),
        Ok(DataType::I16(fitsrs::DataUnitI16(vec![0x1234, 0x5678])))
    );
    assert_eq!(
        DataType::parse(&bytes, BitpixValue::U8, 4),
        Ok(DataType::U8(fitsrs::DataUnitU8(&bytes[..4])))
    );
    assert_eq!(
        DataType::parse(&bytes, BitpixValue::U8, 0),
        Ok(DataType::U8(fitsrs::DataUnitU8(&[])))
    );
    assert_eq!(
        DataType::parse(&bytes, BitpixValue::I32, 2),
        Err(Error::Incomplete { needed: 2 })
    );
    assert_eq!(
        DataType::parse(&bytes, BitpixValue::I64, 1),
        Err(Error::Incomplete { needed: 2 })
    );
    assert_eq!(
        DataType::parse(&[], BitpixValue::F64, 3),
        Err(Error::Incomplete { needed: 24 })
    );
    assert_eq!(DataType::parse(&bytes, BitpixValue::I16, usize::MAX), Err(Error::Overflow));
}

#[test]
fn data_units_from_raw_bytes() {
    let bytes: Vec<u8> = vec![0x80, 0x00, 0x00, 0x00, 0x00, 0x00, 0x00, 0x01];
    assert_eq!(fitsrs::DataUnitU8::new(&bytes, 8).0, &bytes[..]);
    assert_eq!(fitsrs::DataUnitI16::new(&bytes, 4).0, vec![i16::MIN, 0, 0, 1]);
    assert_eq!(fitsrs::DataUnitI32::new(&bytes, 2).0, vec![i32::MIN, 1]);
    assert_eq!(fitsrs::DataUnitI64::new(&bytes, 1).0, vec![i64::MIN + 1]);
    assert_eq!(fitsrs::DataUnitF32::new(&bytes, 2).0, vec![0x8000_0000, 1]);
    assert_eq!(fitsrs::DataUnitF64::new(&bytes, 1).0, vec![0x8000_0000_0000_0001]);
    assert_eq!(f32::from_bits(fitsrs::DataUnitF32::new(&[0xc0, 0x20, 0, 0], 1).0[0]), -2.5);
}

/// A fixed run of bytes that looks random.
fn noise(len: usize) -> Vec<u8> {
    let mut state: u64 = 0x2545_f491_4f6c_dd1d;
    let mut bytes = Vec::with_capacity(len);
    for _ in 0..len {
        state ^= state << 13;
        state ^= state >> 7;
        state ^= state << 17;
        bytes.push((state >> 32) as u8);
    }
    bytes
}

#[test]
fn big_endian_values_agree_with_the_standard_library() {
    let bytes = noise(8 * 512);
    match DataType::parse(&bytes, BitpixValue::I16, 2048).unwrap() {
        DataType::I16(unit) => {
            let expected: Vec<i16> =
                bytes.chunks(2).map(|c| i16::from_be_bytes([c[0], c[1]])).collect();
            assert_eq!(unit.0, expected);
        }
        _ => panic!("not a unit of 16 bit integers"),
    }
    match DataType::parse(&bytes, BitpixValue::I32, 1024).unwrap() {
        DataType::I32(unit) => {
            let expected: Vec<i32> =
                bytes.chunks(4).map(|c| i32::from_be_bytes([c[0], c[1], c[2], c[3]])).collect();
            assert_eq!(unit.0, expected);
        }
        _ => panic!("not a unit of 32 bit integers"),
    }
    match DataType::parse(&bytes, BitpixValue::I64, 512).unwrap() {
        DataType::I64(unit) => {
            let expected: Vec<i64> = bytes
                .chunks(8)
                .map(|c| i64::from_be_bytes([c[0], c[1], c[2], c[3], c[4], c[5], c[6], c[7]]))
                .collect();
            assert_eq!(unit.0, expected);
        }
        _ => panic!("not a unit of 64 bit integers"),
    }
    match DataType::parse(&bytes, BitpixValue::F32, 1024).unwrap() {
        DataType::F32(unit) => {
            let expected: Vec<u32> = bytes
                .chunks(4)
                .map(|c| f32::from_be_bytes([c[0], c[1], c[2], c[3]]).to_bits())
                .collect();
            assert_eq!(unit.0, expected);
        }
        _ => panic!("not a unit of 32 bit floating-point numbers"),
    }
    match DataType::parse(&bytes, BitpixValue::F64, 512).unwrap() {
        DataType::F64(unit) => {
            let expected: Vec<u64> = bytes
                .chunks(8)
                .map(|c| {
                    f64::from_be_bytes([c[0], c[1], c[2], c[3], c[4], c[5], c[6], c[7]]).to_bits()
                })
                .collect();
            assert_eq!(unit.0, expected);
        }
        _ => panic!("not a unit of 64 bit floating-point numbers"),
    }
}

#[test]
fn what_follows_the_data_unit_does_not_matter() {
    let mut first = image_header("32", &[3, 3]);
    first.extend_from_slice(&noise(36));
    let mut second = first.clone();
    second.extend_from_slice(&noise(100));
    let short = Fits::from_bytes_slice(&first).unwrap();
    let long = Fits::from_bytes_slice(&second).unwrap();
    assert_eq!(short.data, long.data);
    assert_eq!(short.header.cards, long.header.cards);
}
