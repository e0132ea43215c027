use grib1::{
    read_f32_ibm, read_grib, read_i16_be, read_i24_be, read_u16_be, read_u24_be, unpack_bits,
    DataRepresentation, Grib1Error, Grib1Reader, GribResult, SearchParams, PDS,
};

fn u24(n: usize) -> [u8; 3] {
    [(n >> 16) as u8, (n >> 8) as u8, n as u8]
}

fn pds(param: u8, level: u16, flag: u8) -> Vec<u8> {
    let mut p = vec![0u8; 28];
    p[0..3].copy_from_slice(&u24(28));
    p[3] = 2;
    p[4] = 98;
    p[7] = flag;
    p[8] = param;
    p[9] = 100;
    p[10] = (level >> 8) as u8;
    p[11] = level as u8;
    p[12] = 24;
    p[13] = 10;
    p[14] = 18;
    p[26] = 0x80;
    p[27] = 0x02;
    p
}

fn rotated_gds(nlat: u16, nlon: u16) -> Vec<u8> {
    let mut g = vec![0u8; 42];
    g[0..3].copy_from_slice(&u24(42));
    g[5] = 10;
    g[6..8].copy_from_slice(&nlat.to_be_bytes());
    g[8..10].copy_from_slice(&nlon.to_be_bytes());
    // latitude of first point: -12.345 degrees, sign-magnitude
    g[10..13].copy_from_slice(&[0x80, 0x30, 0x39]);
    // longitude of first point: 1.5 degrees
    g[13..16].copy_from_slice(&[0x00, 0x05, 0xdc]);
    // latitude of the southern pole: -30 degrees
    g[32..35].copy_from_slice(&[0x80, 0x75, 0x30]);
    g
}

fn bds(width: u8, payload: &[u8]) -> Vec<u8> {
    let len = 11 + payload.len();
    let mut b = vec![0u8; 11];
    b[0..3].copy_from_slice(&u24(len));
    b[4] = 0x80;
    b[5] = 0x01;
    b[6..10].copy_from_slice(&[0x42, 0x10, 0x00, 0x00]);
    b[10] = width;
    b.extend_from_slice(payload);
    b
}

fn message(sections: &[Vec<u8>], pad: usize) -> Vec<u8> {
    let body: usize = sections.iter().map(|s| s.len()).sum();
    let len = 8 + body + pad;
    let mut m = b"GRIB".to_vec();
    m.extend_from_slice(&u24(len));
    m.push(1);
    for s in sections {
        m.extend_from_slice(s);
    }
    m.extend(std::iter::repeat(0u8).take(pad));
    m
}

fn field(param: u8, level: u16) -> Vec<u8> {
    message(&[pds(param, level, 0x80), rotated_gds(2, 2), bds(8, &[1, 2, 3, 4])], 4)
}

fn two_fields() -> Vec<u8> {
    let mut f = field(33, 700);
    f.extend(field(34, 700));
    f
}

fn search(pairs: &[(u32, u32)]) -> Vec<SearchParams> {
    pairs.iter().map(|&(param, level)| SearchParams { param, level }).collect()
}

#[test]
fn read_test() {
    let reader = Grib1Reader::new(two_fields());
    let result = reader.read(search(&[(33, 700), (34, 700)])).unwrap();

    assert_eq!(2, result.len());

    assert_eq!(result[0].pds.indicator_of_parameter_and_units, 33);
    assert_eq!(result[0].pds.level_or_layer_value, 700);

    assert_eq!(result[1].pds.indicator_of_parameter_and_units, 34);
    assert_eq!(result[1].pds.level_or_layer_value, 700);
}

#[test]
fn read_binary_test() {
    let mut file = field(35, 500);
    let wanted = message(&[pds(33, 700, 0x00)], 2542704 - 8 - 28);
    file.extend_from_slice(&wanted);
    file.extend(field(34, 700));
    let reader = Grib1Reader::new(file);
    let result = reader.read_binary(search(&[(33, 700)])).unwrap();
    assert_eq!(2542704, result.len());
    assert_eq!(result, wanted);
}

#[test]
fn results_follow_file_order_not_search_order() {
    let reader = Grib1Reader::new(two_fields());
    let result = reader.read(search(&[(34, 700), (33, 700)])).unwrap();
    assert_eq!(result.len(), 2);
    assert_eq!(result[0].pds.indicator_of_parameter_and_units, 33);
    assert_eq!(result[1].pds.indicator_of_parameter_and_units, 34);
}

#[test]
fn decoded_message_fields() {
    let reader = Grib1Reader::new(field(33, 700));
    let result = reader.read(search(&[(33, 700)])).unwrap();
    let g = &result[0];
    assert_eq!(g.length, 8 + 28 + 42 + 15 + 4);
    assert_eq!(g.pds.parameter_table_version_number, 2);
    assert_eq!(g.pds.identification_of_center, 98);
    assert_eq!(g.pds.year, 24);
    assert_eq!(g.pds.month, 10);
    assert_eq!(g.pds.day, 18);
    assert_eq!(g.pds.decimal_scale_factor, -2);
    let gds = g.gds.unwrap();
    assert_eq!(gds.data_representation_type, 10);
    match gds.data {
        DataRepresentation::RotatedLatLon(r) => {
            assert_eq!(r.number_of_lat_values, 2);
            assert_eq!(r.number_of_lon_values, 2);
            assert_eq!(r.latitude_of_first_grid_point, -12345);
            assert_eq!(r.longitude_of_first_grid_point, 1500);
            assert_eq!(r.latitude_of_southern_pole, -30000);
            assert_eq!(r.longitude_of_southern_pole, 0);
        }
        DataRepresentation::Unhandled => panic!("expected a rotated grid"),
    }
    let b = g.bds.as_ref().unwrap();
    assert_eq!(b.binary_scale_factor, -1);
    assert_eq!(b.bits_per_value, 8);
    assert_eq!(b.reference_value.exponent, 0x42);
    assert_eq!(b.data, vec![1, 2, 3, 4]);
}

#[test]
fn unhandled_grid_type_keeps_header() {
    let mut g = rotated_gds(2, 2);
    g[3] = 7;
    g[4] = 255;
    g[5] = 0;
    let file = message(&[pds(33, 700, 0x80), g, bds(8, &[])], 0);
    let result = Grib1Reader::new(file).read(search(&[(33, 700)])).unwrap();
    let gds = result[0].gds.unwrap();
    assert_eq!(gds.number_of_vertical_coordinate_values, 7);
    assert_eq!(gds.pvl_location, 255);
    assert_eq!(gds.data_representation_type, 0);
    assert!(matches!(gds.data, DataRepresentation::Unhandled));
    assert_eq!(result[0].bds.as_ref().unwrap().data.len(), 0);
}

#[test]
fn bitmap_section_is_skipped() {
    let mut bmp = vec![0u8; 6];
    bmp[0..3].copy_from_slice(&u24(6));
    let file = message(&[pds(33, 700, 0xc0), rotated_gds(1, 3), bmp, bds(4, &[0x12, 0x30])], 0);
    let result = Grib1Reader::new(file).read(search(&[(33, 700)])).unwrap();
    assert_eq!(result[0].bds.as_ref().unwrap().data, vec![1, 2, 3]);
}

#[test]
fn wrong_header_is_rejected() {
    let mut file = field(33, 700);
    file[0] = b'X';
    let r = Grib1Reader::new(file).read(search(&[(33, 700)]));
    assert!(matches!(r, Err(Grib1Error::WrongHeader)));
}

#[test]
fn wrong_version_is_rejected() {
    let mut file = field(33, 700);
    file[7] = 2;
    let r = Grib1Reader::new(file.clone()).read(search(&[(33, 700)]));
    assert!(matches!(r, Err(Grib1Error::WrongVersion(2))));
    let r = Grib1Reader::new(file).read_binary(search(&[(33, 700)]));
    assert!(matches!(r, Err(Grib1Error::WrongVersion(2))));
}

#[test]
fn second_bad_message_aborts_scan() {
    let mut file = two_fields();
    let second = field(33, 700).len();
    file[second + 1] = b'X';
    let r = Grib1Reader::new(file).read(search(&[(33, 700)]));
    assert!(matches!(r, Err(Grib1Error::WrongHeader)));
}

#[test]
fn truncated_message_is_io_error() {
    let mut file = field(33, 700);
    file.truncate(file.len() - 1);
    let r = Grib1Reader::new(file).read(search(&[(99, 1)]));
    assert!(matches!(r, Err(Grib1Error::IoError)));
    let r = Grib1Reader::new(b"GRI".to_vec()).read(search(&[(99, 1)]));
    assert!(matches!(r, Err(Grib1Error::IoError)));
}

#[test]
fn zero_length_message_is_malformed() {
    let mut file = field(33, 700);
    file[4..7].copy_from_slice(&[0, 0, 0]);
    let r = Grib1Reader::new(file).read(search(&[(33, 700)]));
    assert!(matches!(r, Err(Grib1Error::Malformed)));
}

#[test]
fn short_product_definition_is_malformed() {
    let mut p = pds(33, 700, 0);
    p[0..3].copy_from_slice(&u24(20));
    let file = message(&[p], 0);
    let r = Grib1Reader::new(file).read(search(&[(33, 700)]));
    assert!(matches!(r, Err(Grib1Error::Malformed)));
}

#[test]
fn short_packed_data_fails_decode() {
    let file = message(&[pds(33, 700, 0x80), rotated_gds(2, 2), bds(8, &[1, 2, 3])], 0);
    let r = Grib1Reader::new(file.clone()).read(search(&[(33, 700)]));
    assert!(matches!(r, Err(Grib1Error::DataDecodeFailed)));
    // Raw mode does not unpack the data.
    let raw = Grib1Reader::new(file.clone()).read_binary(search(&[(33, 700)])).unwrap();
    assert_eq!(raw, file);
    // Nor does a message that does not match.
    let none = Grib1Reader::new(file).read(search(&[(34, 700)])).unwrap();
    assert!(none.is_empty());
}

#[test]
fn decoding_twice_gives_same_result() {
    let reader = Grib1Reader::new(two_fields());
    let a = reader.read(search(&[(33, 700), (34, 700)])).unwrap();
    let b = reader.read(search(&[(33, 700), (34, 700)])).unwrap();
    assert_eq!(format!("{:?}", a), format!("{:?}", b));
    let x = reader.read_binary(search(&[(34, 700)])).unwrap();
    let y = reader.read_binary(search(&[(34, 700)])).unwrap();
    assert_eq!(x, y);
}

#[test]
fn raw_length_equals_reported_length() {
    let file = two_fields();
    let first = field(33, 700);
    let reported = read_u24_be(&first[4..]) as usize;
    let raw = Grib1Reader::new(file).read_binary(search(&[(33, 700)])).unwrap();
    assert_eq!(raw.len(), reported);
    assert_eq!(raw, first);
}

#[test]
fn raw_mode_of_every_message_is_whole_file() {
    let file = two_fields();
    let raw = Grib1Reader::new(file.clone()).read_binary(search(&[(33, 700), (34, 700)])).unwrap();
    assert_eq!(raw, file);
}

#[test]
fn no_optional_sections() {
    let file = message(&[pds(33, 700, 0x00), bds(8, &[9])], 0);
    let result = Grib1Reader::new(file).read(search(&[(33, 700)])).unwrap();
    assert!(result[0].gds.is_none());
    assert!(!result[0].pds.has_gds());
    assert!(!result[0].pds.has_bmp());
    let b = result[0].bds.as_ref().unwrap();
    assert_eq!(b.bits_per_value, 8);
    assert!(b.data.is_empty());
}

#[test]
fn no_matching_message_gives_empty_result() {
    let reader = Grib1Reader::new(two_fields());
    assert!(reader.read(search(&[(11, 850)])).unwrap().is_empty());
    assert!(reader.read_binary(search(&[(11, 850)])).unwrap().is_empty());
    assert!(reader.read(vec![]).unwrap().is_empty());
    assert!(Grib1Reader::new(vec![]).read(search(&[(33, 700)])).unwrap().is_empty());
}

#[test]
fn criteria_match_exactly() {
    let reader = Grib1Reader::new(field(33, 700));
    assert_eq!(reader.read(search(&[(33 + 256, 700)])).unwrap().len(), 0);
    assert_eq!(reader.read(search(&[(33, 700 + 65536)])).unwrap().len(), 0);
    assert!(reader.read_binary(search(&[(33 + 256, 700 + 65536)])).unwrap().is_empty());
    assert_eq!(reader.read(search(&[(33, 700)])).unwrap().len(), 1);
}

#[test]
fn short_tail_with_wrong_magic_is_wrong_header() {
    let mut file = field(33, 700);
    file.extend_from_slice(b"GRIX1");
    let r = Grib1Reader::new(file.clone()).read(search(&[(33, 700)]));
    assert!(matches!(r, Err(Grib1Error::WrongHeader)));
    file.truncate(file.len() - 5);
    file.extend_from_slice(b"GRIB1");
    let r = Grib1Reader::new(file).read(search(&[(33, 700)]));
    assert!(matches!(r, Err(Grib1Error::IoError)));
}

#[test]
fn read_grib_reports_length_of_unmatched() {
    let file = two_fields();
    let first_len = field(33, 700).len();
    match read_grib(&file, 0, &search(&[(34, 700)]), true) {
        Ok(GribResult::Length(l)) => assert_eq!(l as usize, first_len),
        other => panic!("unexpected {:?}", other),
    }
    match read_grib(&file, first_len, &search(&[(34, 700)]), false) {
        Ok(GribResult::Grib(g)) => {
            assert_eq!(g.pds.indicator_of_parameter_and_units, 34);
            assert!(g.bds.is_none());
        }
        other => panic!("unexpected {:?}", other),
    }
}

#[test]
fn flags_select_sections() {
    let mut p = PDS {
        parameter_table_version_number: 0,
        identification_of_center: 0,
        generating_process_id_number: 0,
        grid_identification: 0,
        flag_specifying_the_presence_or_absence_of_a_gds_or_a_bms: 0x80,
        indicator_of_parameter_and_units: 0,
        indicator_of_type_of_level_or_layer: 0,
        level_or_layer_value: 0,
        year: 0,
        month: 0,
        day: 0,
        hour: 0,
        minute: 0,
        forecast_time_unit: 0,
        p1_period_of_time: 0,
        p2_period_of_time: 0,
        time_range_indicator: 0,
        number_missing_from_averages_or_accumulations: 0,
        century_of_initial_reference_time: 0,
        identification_of_sub_center: 0,
        decimal_scale_factor: 0,
    };
    assert!(p.has_gds());
    assert!(!p.has_bmp());
    p.flag_specifying_the_presence_or_absence_of_a_gds_or_a_bms = 0x40;
    assert!(!p.has_gds());
    assert!(p.has_bmp());
}

#[test]
fn unpack_width_8_gives_bytes() {
    let buf = [0x00u8, 0x7f, 0x80, 0xff];
    assert_eq!(unpack_bits(&buf, 8, 4).unwrap(), vec![0x00, 0x7f, 0x80, 0xff]);
}

#[test]
fn unpack_exhaustion_fails() {
    let buf = [0xffu8, 0xff, 0xff];
    assert!(matches!(unpack_bits(&buf, 8, 4), Err(Grib1Error::DataDecodeFailed)));
    assert!(matches!(unpack_bits(&buf, 12, 3), Err(Grib1Error::DataDecodeFailed)));
    assert_eq!(unpack_bits(&buf, 12, 2).unwrap(), vec![0xfff, 0xfff]);
    assert!(matches!(unpack_bits(&buf, 33, 1), Err(Grib1Error::DataDecodeFailed)));
    assert_eq!(unpack_bits(&buf, 33, 0).unwrap(), Vec::<u32>::new());
}

#[test]
fn unpack_crosses_byte_boundaries() {
    let buf = [0xabu8, 0xcd, 0xef];
    assert_eq!(unpack_bits(&buf, 12, 2).unwrap(), vec![0xabc, 0xdef]);
    // 101 010 111 100 110 111 101 111
    assert_eq!(unpack_bits(&buf, 3, 8).unwrap(), vec![5, 2, 7, 4, 6, 7, 5, 7]);
    assert_eq!(unpack_bits(&buf, 24, 1).unwrap(), vec![0xabcdef]);
    assert_eq!(unpack_bits(&[0x12, 0x34, 0x56, 0x78], 32, 1).unwrap(), vec![0x12345678]);
    assert_eq!(unpack_bits(&buf, 0, 5).unwrap(), vec![0; 5]);
}

fn ibm_value(negative: bool, exponent: u8, mantissa: u32) -> f64 {
    let sign = if negative { -1.0 } else { 1.0 };
    sign * mantissa as f64 * 2f64.powi(-24) * 16f64.powi(exponent as i32 - 64)
}

#[test]
fn ibm_float_parts() {
    let f = read_f32_ibm(&[0x42, 0x10, 0x00, 0x00]);
    assert!(!f.negative);
    assert_eq!(f.exponent, 0x42);
    assert_eq!(f.mantissa, 0x100000);
    assert_eq!(ibm_value(f.negative, f.exponent, f.mantissa), 16.0);

    let g = read_f32_ibm(&[0xc2, 0x76, 0xa0, 0x00]);
    assert!(g.negative);
    assert_eq!(g.exponent, 0x42);
    assert_eq!(g.mantissa, 0x76a000);
    assert_eq!(ibm_value(g.negative, g.exponent, g.mantissa), -118.625);
}

#[test]
fn sign_magnitude_integers() {
    assert_eq!(read_i16_be(&[0x80, 0x05]), -5);
    assert_eq!(read_i16_be(&[0x00, 0x05]), 5);
    assert_eq!(read_i16_be(&[0xff, 0xff]), -32767);
    assert_eq!(read_i16_be(&[0x80, 0x00]), 0);
    assert_eq!(read_i24_be(&[0x80, 0x30, 0x39]), -12345);
    assert_eq!(read_i24_be(&[0x7f, 0xff, 0xff]), 8388607);
    assert_eq!(read_i24_be(&[0xff, 0xff, 0xff]), -8388607);
}

#[test]
fn unsigned_big_endian_integers() {
    assert_eq!(read_u16_be(&[0x02, 0xbc]), 700);
    assert_eq!(read_u16_be(&[0xff, 0xff, 0x00]), 65535);
    assert_eq!(read_u24_be(&[0x26, 0xcc, 0x70]), 2542704);
    assert_eq!(read_u24_be(&[0xff, 0xff, 0xff]), 16777215);
}
