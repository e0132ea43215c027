use vstd::prelude::*;
use vstd::slice::slice_subrange;
use crate::bits::{packed_value, unpack_bits, unpack_fits};
use crate::bytes::{
    i16_sm, i24_sm, ibm_spec, read_f32_ibm, read_i16_be, read_i24_be, read_u16_be, read_u24_be,
    u16_be, u24_be, IbmFloat,
};
use crate::error::Grib1Error;

verus! {

/// Smallest length of a product definition section.
pub const PDS_MIN_LEN: u32 = 28;

/// Smallest length of a grid description section.
pub const GDS_MIN_LEN: u32 = 6;

/// Smallest length of a grid description section of the rotated latitude/longitude kind.
pub const GDS_ROTATED_MIN_LEN: u32 = 38;

/// Smallest length of a bitmap section.
pub const BITMAP_MIN_LEN: u32 = 6;

/// Smallest length of a binary data section: the header before the packed values.
pub const BDS_MIN_LEN: u32 = 11;

/// The representation type code of a rotated latitude/longitude grid.
pub const ROTATED_LAT_LON: u8 = 10;

/// The length of the section that starts at `p`, if its three length bytes
/// and its whole body lie in `f` and it is at least `min` bytes long.
pub open spec fn section_spec(f: Seq<u8>, p: int, min: nat) -> Result<nat, Grib1Error> {
    if p + 3 > f.len() {
        Err(Grib1Error::IoError)
    } else if p + u24_be(f, p) > f.len() {
        Err(Grib1Error::IoError)
    } else if u24_be(f, p) < min {
        Err(Grib1Error::Malformed)
    } else {
        Ok(u24_be(f, p))
    }
}

/// Reads the length prefix of the section at `p` and checks it against the
/// file and the section's smallest length.
pub fn section_length(file: &[u8], p: usize, min: u32) -> (r: Result<usize, Grib1Error>)
    ensures
        match r {
            Ok(n) => section_spec(file@, p as int, min as nat) == Ok::<nat, Grib1Error>(n as nat),
            Err(e) => section_spec(file@, p as int, min as nat) == Err::<nat, Grib1Error>(e),
        },
{
    if file.len() < 3 || p > file.len() - 3 {
        return Err(Grib1Error::IoError);
    }
    let len = read_u24_be(slice_subrange(file, p, file.len()));
    if len as usize > file.len() - p {
        return Err(Grib1Error::IoError);
    }
    if len < min {
        return Err(Grib1Error::Malformed);
    }
    Ok(len as usize)
}

/// Product definition section.
#[derive(Debug, Clone, Copy, PartialEq, Eq)]
pub struct PDS {
    pub parameter_table_version_number: u8,
    pub identification_of_center: u8,
    pub generating_process_id_number: u8,
    pub grid_identification: u8,
    pub flag_specifying_the_presence_or_absence_of_a_gds_or_a_bms: u8,
    pub indicator_of_parameter_and_units: u8,
    pub indicator_of_type_of_level_or_layer: u8,
    pub level_or_layer_value: u16,
    pub year: u8,
    pub month: u8,
    pub day: u8,
    pub hour: u8,
    pub minute: u8,
    pub forecast_time_unit: u8,
    pub p1_period_of_time: u8,
    pub p2_period_of_time: u8,
    pub time_range_indicator: u8,
    pub number_missing_from_averages_or_accumulations: u8,
    pub century_of_initial_reference_time: u8,
    pub identification_of_sub_center: u8,
    pub decimal_scale_factor: i16,
}

impl PDS {
    /// The flag byte's high bit: a grid description section follows.
    pub open spec fn gds_present(&self) -> bool {
        self.flag_specifying_the_presence_or_absence_of_a_gds_or_a_bms & 0x80u8 != 0
    }

    /// The flag byte's second bit: a bitmap section follows.
    pub open spec fn bmp_present(&self) -> bool {
        self.flag_specifying_the_presence_or_absence_of_a_gds_or_a_bms & 0x40u8 != 0
    }

    pub fn has_gds(&self) -> (r: bool)
        ensures
            r == self.gds_present(),
    {
        self.flag_specifying_the_presence_or_absence_of_a_gds_or_a_bms & 0x80u8 != 0
    }

    pub fn has_bmp(&self) -> (r: bool)
        ensures
            r == self.bmp_present(),
    {
        self.flag_specifying_the_presence_or_absence_of_a_gds_or_a_bms & 0x40u8 != 0
    }
}

/// The product definition section at `p`, field by field.
pub open spec fn pds_spec(f: Seq<u8>, p: int) -> PDS {
    PDS {
        parameter_table_version_number: f[p + 3],
        identification_of_center: f[p + 4],
        generating_process_id_number: f[p + 5],
        grid_identification: f[p + 6],
        flag_specifying_the_presence_or_absence_of_a_gds_or_a_bms: f[p + 7],
        indicator_of_parameter_and_units: f[p + 8],
        indicator_of_type_of_level_or_layer: f[p + 9],
        level_or_layer_value: u16_be(f, p + 10) as u16,
        year: f[p + 12],
        month: f[p + 13],
        day: f[p + 14],
        hour: f[p + 15],
        minute: f[p + 16],
        forecast_time_unit: f[p + 17],
        p1_period_of_time: f[p + 18],
        p2_period_of_time: f[p + 19],
        time_range_indicator: f[p + 20],
        number_missing_from_averages_or_accumulations: f[p + 23],
        century_of_initial_reference_time: f[p + 24],
        identification_of_sub_center: f[p + 25],
        decimal_scale_factor: i16_sm(f, p + 26) as i16,
    }
}

/// Decodes the product definition section at `p`.
pub fn read_pds(file: &[u8], p: usize) -> (r: Result<PDS, Grib1Error>)
    ensures
        match r {
            Ok(x) => section_spec(file@, p as int, PDS_MIN_LEN as nat) is Ok && x == pds_spec(
                file@,
                p as int,
            ),
            Err(e) => section_spec(file@, p as int, PDS_MIN_LEN as nat) == Err::<nat, Grib1Error>(e),
        },
{
    let _len = section_length(file, p, PDS_MIN_LEN)?;
    let b = slice_subrange(file, p, file.len());
    Ok(PDS {
        parameter_table_version_number: b[3],
        identification_of_center: b[4],
        generating_process_id_number: b[5],
        grid_identification: b[6],
        flag_specifying_the_presence_or_absence_of_a_gds_or_a_bms: b[7],
        indicator_of_parameter_and_units: b[8],
        indicator_of_type_of_level_or_layer: b[9],
        level_or_layer_value: read_u16_be(slice_subrange(b, 10, b.len())),
        year: b[12],
        month: b[13],
        day: b[14],
        hour: b[15],
        minute: b[16],
        forecast_time_unit: b[17],
        p1_period_of_time: b[18],
        p2_period_of_time: b[19],
        time_range_indicator: b[20],
        number_missing_from_averages_or_accumulations: b[23],
        century_of_initial_reference_time: b[24],
        identification_of_sub_center: b[25],
        decimal_scale_factor: read_i16_be(slice_subrange(b, 26, b.len())),
    })
}

/// Rotated latitude/longitude grid. Coordinates are in thousandths of a degree.
#[derive(Debug, Clone, Copy, PartialEq, Eq)]
pub struct RotatedLatLon {
    pub number_of_lat_values: u16,
    pub number_of_lon_values: u16,
    pub latitude_of_first_grid_point: i32,
    pub longitude_of_first_grid_point: i32,
    pub latitude_of_last_grid_point: i32,
    pub longitude_of_last_grid_point: i32,
    pub latitude_of_southern_pole: i32,
    pub longitude_of_southern_pole: i32,
}

/// The grid representations this library decodes.
#[derive(Debug, Clone, Copy, PartialEq, Eq)]
pub enum DataRepresentation {
    Unhandled,
    RotatedLatLon(RotatedLatLon),
}

/// Grid description section.
#[derive(Debug, Clone, Copy, PartialEq, Eq)]
pub struct GDS {
    pub number_of_vertical_coordinate_values: u8,
    pub pvl_location: u8,
    pub data_representation_type: u8,
    pub data: DataRepresentation,
}

/// Smallest length of the grid description section at `p`: a rotated
/// latitude/longitude grid needs room for its coordinates.
pub open spec fn gds_min(f: Seq<u8>, p: int) -> nat {
    if p + 6 <= f.len() && f[p + 5] == ROTATED_LAT_LON {
        GDS_ROTATED_MIN_LEN as nat
    } else {
        GDS_MIN_LEN as nat
    }
}

/// The rotated latitude/longitude payload of the grid description section at `p`.
pub open spec fn rotated_spec(f: Seq<u8>, p: int) -> RotatedLatLon {
    RotatedLatLon {
        number_of_lat_values: u16_be(f, p + 6) as u16,
        number_of_lon_values: u16_be(f, p + 8) as u16,
        latitude_of_first_grid_point: i24_sm(f, p + 10) as i32,
        longitude_of_first_grid_point: i24_sm(f, p + 13) as i32,
        latitude_of_last_grid_point: i24_sm(f, p + 17) as i32,
        longitude_of_last_grid_point: i24_sm(f, p + 20) as i32,
        latitude_of_southern_pole: i24_sm(f, p + 32) as i32,
        longitude_of_southern_pole: i24_sm(f, p + 35) as i32,
    }
}

/// The grid description section at `p`, field by field.
pub open spec fn gds_spec(f: Seq<u8>, p: int) -> GDS {
    GDS {
        number_of_vertical_coordinate_values: f[p + 3],
        pvl_location: f[p + 4],
        data_representation_type: f[p + 5],
        data: if f[p + 5] == ROTATED_LAT_LON {
            DataRepresentation::RotatedLatLon(rotated_spec(f, p))
        } else {
            DataRepresentation::Unhandled
        },
    }
}

/// Decodes the grid description section at `p`.
pub fn read_gds(file: &[u8], p: usize) -> (r: Result<GDS, Grib1Error>)
    ensures
        match r {
            Ok(x) => section_spec(file@, p as int, gds_min(file@, p as int)) is Ok && x == gds_spec(
                file@,
                p as int,
            ),
            Err(e) => section_spec(file@, p as int, gds_min(file@, p as int)) == Err::<
                nat,
                Grib1Error,
            >(e),
        },
{
    let len = section_length(file, p, GDS_MIN_LEN)?;
    let b = slice_subrange(file, p, file.len());
    let data_representation_type = b[5];
    let mut data = DataRepresentation::Unhandled;
    if data_representation_type == ROTATED_LAT_LON {
        if len < GDS_ROTATED_MIN_LEN as usize {
            return Err(Grib1Error::Malformed);
        }
        data = DataRepresentation::RotatedLatLon(RotatedLatLon {
            number_of_lat_values: read_u16_be(slice_subrange(b, 6, b.len())),
            number_of_lon_values: read_u16_be(slice_subrange(b, 8, b.len())),
            latitude_of_first_grid_point: read_i24_be(slice_subrange(b, 10, b.len())),
            longitude_of_first_grid_point: read_i24_be(slice_subrange(b, 13, b.len())),
            latitude_of_last_grid_point: read_i24_be(slice_subrange(b, 17, b.len())),
            longitude_of_last_grid_point: read_i24_be(slice_subrange(b, 20, b.len())),
            latitude_of_southern_pole: read_i24_be(slice_subrange(b, 32, b.len())),
            longitude_of_southern_pole: read_i24_be(slice_subrange(b, 35, b.len())),
        });
    }
    Ok(GDS {
        number_of_vertical_coordinate_values: b[3],
        pvl_location: b[4],
        data_representation_type: b[5],
        data,
    })
}

/// Bitmap section: its header fields only.
#[derive(Debug, Clone, Copy, PartialEq, Eq)]
pub struct Bitmap {
    pub number_of_unused_bits_at_end_of_section3: u8,
    pub table_reference: u16,
}

/// The bitmap section at `p`, field by field.
pub open spec fn bitmap_spec(f: Seq<u8>, p: int) -> Bitmap {
    Bitmap {
        number_of_unused_bits_at_end_of_section3: f[p + 3],
        table_reference: u16_be(f, p + 4) as u16,
    }
}

/// Decodes the header of the bitmap section at `p`.
pub fn read_bitmap(file: &[u8], p: usize) -> (r: Result<Bitmap, Grib1Error>)
    ensures
        match r {
            Ok(x) => section_spec(file@, p as int, BITMAP_MIN_LEN as nat) is Ok && x
                == bitmap_spec(file@, p as int),
            Err(e) => section_spec(file@, p as int, BITMAP_MIN_LEN as nat) == Err::<nat, Grib1Error>(
                e,
            ),
        },
{
    let _len = section_length(file, p, BITMAP_MIN_LEN)?;
    let b = slice_subrange(file, p, file.len());
    Ok(Bitmap {
        number_of_unused_bits_at_end_of_section3: b[3],
        table_reference: read_u16_be(slice_subrange(b, 4, b.len())),
    })
}

/// Binary data section. The samples are kept as the packed unsigned integers;
/// sample `k` stands for `reference_value + data[k] * 2^binary_scale_factor`.
#[derive(Debug, Clone)]
pub struct BDS {
    pub data_flag: u8,
    pub binary_scale_factor: i16,
    pub reference_value: IbmFloat,
    pub bits_per_value: u8,
    pub data: Vec<u32>,
}

/// What a binary data section holds, as plain values.
pub struct BdsView {
    pub data_flag: u8,
    pub binary_scale_factor: i16,
    pub reference_value: IbmFloat,
    pub bits_per_value: u8,
    pub data: Seq<u32>,
}

impl View for BDS {
    type V = BdsView;

    open spec fn view(&self) -> BdsView {
        BdsView {
            data_flag: self.data_flag,
            binary_scale_factor: self.binary_scale_factor,
            reference_value: self.reference_value,
            bits_per_value: self.bits_per_value,
            data: self.data@,
        }
    }
}

/// The packed values of the binary data section at `p`, whose length is `n`.
pub open spec fn bds_payload(f: Seq<u8>, p: int, n: nat) -> Seq<u8> {
    f.subrange(p + BDS_MIN_LEN as int, p + n)
}

/// Whether the binary data section at `p` decodes with `count` values.
pub open spec fn bds_check(f: Seq<u8>, p: int, count: nat) -> Result<nat, Grib1Error> {
    match section_spec(f, p, BDS_MIN_LEN as nat) {
        Err(e) => Err(e),
        Ok(n) => if unpack_fits(bds_payload(f, p, n), f[p + 10] as nat, count) {
            Ok(n)
        } else {
            Err(Grib1Error::DataDecodeFailed)
        },
    }
}

/// The binary data section at `p`, of length `n`, decoded into `count` values.
pub open spec fn bds_spec(f: Seq<u8>, p: int, n: nat, count: nat) -> BdsView {
    BdsView {
        data_flag: f[p + 3],
        binary_scale_factor: i16_sm(f, p + 4) as i16,
        reference_value: ibm_spec(f, p + 6),
        bits_per_value: f[p + 10],
        data: Seq::new(count, |k: int| packed_value(bds_payload(f, p, n), f[p + 10] as nat, k) as u32),
    }
}

/// Decodes the binary data section at `p`, unpacking `count` values.
pub fn read_bds(file: &[u8], p: usize, count: usize) -> (r: Result<BDS, Grib1Error>)
    ensures
        match r {
            Ok(x) => match bds_check(file@, p as int, count as nat) {
                Ok(n) => x@ == bds_spec(file@, p as int, n, count as nat) && forall|k: int|
                    0 <= k < count ==> #[trigger] x.data@[k] as nat == packed_value(
                        bds_payload(file@, p as int, n),
                        file@[p + 10] as nat,
                        k,
                    ),
                Err(_) => false,
            },
            Err(e) => bds_check(file@, p as int, count as nat) == Err::<nat, Grib1Error>(e),
        },
{
    let len = match section_length(file, p, BDS_MIN_LEN) {
        Ok(n) => n,
        Err(e) => return Err(e),
    };
    assert(p + len <= file@.len());
    assert(file@.len() == file.len());
    let b = slice_subrange(file, p, p + len);
    let binary_scale = read_i16_be(slice_subrange(b, 4, b.len()));
    let ref_value = read_f32_ibm(slice_subrange(b, 6, b.len()));
    let bit_count = b[10];
    let payload = slice_subrange(b, BDS_MIN_LEN as usize, len);
    assert(payload@ == bds_payload(file@, p as int, len as nat));
    let data = unpack_bits(payload, bit_count, count)?;
    let r = BDS {
        data_flag: b[3],
        binary_scale_factor: binary_scale,
        reference_value: ref_value,
        bits_per_value: bit_count,
        data,
    };
    assert(r@.data =~= bds_spec(file@, p as int, len as nat, count as nat).data);
    Ok(r)
}

} // verus!
