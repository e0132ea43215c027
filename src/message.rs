use vstd::prelude::*;
use vstd::slice::slice_subrange;
use crate::bytes::{read_u24_be, u16_be, u24_be};
use crate::error::Grib1Error;
use crate::sections::{
    bds_check, bds_spec, gds_min, gds_spec, pds_spec, read_bitmap, read_gds, read_pds,
    section_spec, BdsView, DataRepresentation, BDS, BITMAP_MIN_LEN, GDS, PDS, PDS_MIN_LEN,
    ROTATED_LAT_LON,
};

verus! {

/// Length of the letters `GRIB` that open every message.
pub const MAGIC_LEN: usize = 4;

/// Length of the fixed header that opens every message.
pub const HEADER_LEN: usize = 8;

/// A wanted field: a parameter code and a level value.
#[derive(Debug, Clone, Copy, PartialEq, Eq)]
pub struct SearchParams {
    pub param: u32,
    pub level: u32,
}

/// Whether the product definition `pds` is the field that `s` asks for. The
/// parameter and the level must both equal the criterion's exactly.
pub open spec fn criterion_matches(pds: PDS, s: SearchParams) -> bool {
    pds.indicator_of_parameter_and_units as u32 == s.param && pds.level_or_layer_value as u32
        == s.level
}

/// Whether any criterion of `search` matches `pds`.
pub open spec fn any_match(pds: PDS, search: Seq<SearchParams>) -> bool {
    exists|i: int| 0 <= i < search.len() && criterion_matches(pds, #[trigger] search[i])
}

/// One decoded message.
#[derive(Debug, Clone)]
pub struct Grib {
    pub length: u64,
    pub pds: PDS,
    pub gds: Option<GDS>,
    pub bds: Option<BDS>,
}

/// What a decoded message holds, as plain values.
pub struct GribView {
    pub length: nat,
    pub pds: PDS,
    pub gds: Option<GDS>,
    pub bds: Option<BdsView>,
}

impl View for Grib {
    type V = GribView;

    open spec fn view(&self) -> GribView {
        GribView {
            length: self.length as nat,
            pds: self.pds,
            gds: self.gds,
            bds: match self.bds {
                Some(b) => Some(b@),
                None => None,
            },
        }
    }
}

/// The outcome of scanning one message: decoded when it matched, else its length alone.
#[derive(Debug)]
pub enum GribResult {
    Length(u64),
    Grib(Grib),
}

/// Whether the four bytes at `off` spell `GRIB`.
pub open spec fn is_grib_magic(f: Seq<u8>, off: int) -> bool {
    f[off] == 0x47u8 && f[off + 1] == 0x52u8 && f[off + 2] == 0x49u8 && f[off + 3] == 0x42u8
}

/// The total length that the message at `off` reports in its header.
pub open spec fn message_length(f: Seq<u8>, off: int) -> nat {
    u24_be(f, off + 4)
}

/// Where the product definition section of the message at `off` starts.
pub open spec fn pds_pos(off: int) -> int {
    off + HEADER_LEN
}

/// The product definition of the message at `off`.
pub open spec fn msg_pds(f: Seq<u8>, off: int) -> PDS {
    pds_spec(f, pds_pos(off))
}

/// Where the section after the product definition starts.
pub open spec fn gds_pos(f: Seq<u8>, off: int) -> int {
    pds_pos(off) + u24_be(f, pds_pos(off))
}

/// Where the section after the grid description, if any, starts.
pub open spec fn bmp_pos(f: Seq<u8>, off: int) -> int {
    gds_pos(f, off) + if msg_pds(f, off).gds_present() {
        u24_be(f, gds_pos(f, off)) as int
    } else {
        0
    }
}

/// Where the binary data section starts: after the bitmap, if any.
pub open spec fn bds_pos(f: Seq<u8>, off: int) -> int {
    bmp_pos(f, off) + if msg_pds(f, off).bmp_present() {
        u24_be(f, bmp_pos(f, off)) as int
    } else {
        0
    }
}

/// The number of grid points of the message at `off`: the product of the
/// rotated grid's point counts, or zero without such a grid.
pub open spec fn point_count(f: Seq<u8>, off: int) -> nat {
    let g = gds_pos(f, off);
    if msg_pds(f, off).gds_present() && f[g + 5] == ROTATED_LAT_LON {
        u16_be(f, g + 6) * u16_be(f, g + 8)
    } else {
        0
    }
}

/// How reading the fixed header of the message at `off` ends: an error, or
/// the message's length. A message must start with `GRIB` (checked as soon as
/// four bytes remain), hold its whole eight-byte header, be of edition 1,
/// and report a length that is not zero and stays within the file.
pub open spec fn header_spec(f: Seq<u8>, off: int) -> Result<nat, Grib1Error> {
    if off + MAGIC_LEN > f.len() {
        Err(Grib1Error::IoError)
    } else if !is_grib_magic(f, off) {
        Err(Grib1Error::WrongHeader)
    } else if off + HEADER_LEN > f.len() {
        Err(Grib1Error::IoError)
    } else if f[off + 7] != 1 {
        Err(Grib1Error::WrongVersion(f[off + 7]))
    } else if message_length(f, off) == 0 {
        Err(Grib1Error::Malformed)
    } else if off + message_length(f, off) > f.len() {
        Err(Grib1Error::IoError)
    } else {
        Ok(message_length(f, off))
    }
}

/// How reading the sections before the binary data ends: the product
/// definition, then the grid description and the bitmap as its flags ask.
pub open spec fn sections_spec(f: Seq<u8>, off: int) -> Result<(), Grib1Error> {
    let pds = msg_pds(f, off);
    let pds_sec = section_spec(f, pds_pos(off), PDS_MIN_LEN as nat);
    let gds_sec = section_spec(f, gds_pos(f, off), gds_min(f, gds_pos(f, off)));
    let bmp_sec = section_spec(f, bmp_pos(f, off), BITMAP_MIN_LEN as nat);
    if pds_sec is Err {
        Err(pds_sec->Err_0)
    } else if pds.gds_present() && gds_sec is Err {
        Err(gds_sec->Err_0)
    } else if pds.bmp_present() && bmp_sec is Err {
        Err(bmp_sec->Err_0)
    } else {
        Ok(())
    }
}

/// How scanning the message at `off` ends: an error, or whether it matched.
/// The header comes first, then the sections before the binary data; the
/// binary data is decoded only for a match whose data is wanted.
pub open spec fn message_spec(f: Seq<u8>, off: int, search: Seq<SearchParams>, read_bds: bool) -> Result<bool, Grib1Error> {
    let bds_sec = bds_check(f, bds_pos(f, off), point_count(f, off));
    if header_spec(f, off) is Err {
        Err(header_spec(f, off)->Err_0)
    } else if sections_spec(f, off) is Err {
        Err(sections_spec(f, off)->Err_0)
    } else if !any_match(msg_pds(f, off), search) {
        Ok(false)
    } else if read_bds && bds_sec is Err {
        Err(bds_sec->Err_0)
    } else {
        Ok(true)
    }
}

/// The decoded message at `off`, with its binary data when `read_bds` holds.
pub open spec fn grib_spec(f: Seq<u8>, off: int, read_bds: bool) -> GribView {
    let pds = msg_pds(f, off);
    let b = bds_pos(f, off);
    GribView {
        length: message_length(f, off),
        pds,
        gds: if pds.gds_present() {
            Some(gds_spec(f, gds_pos(f, off)))
        } else {
            None
        },
        bds: if read_bds {
            Some(bds_spec(f, b, u24_be(f, b), point_count(f, off)))
        } else {
            None
        },
    }
}

/// Length of the section at `p`, whose length prefix is known to lie in the file.
fn prefix_length(file: &[u8], p: usize) -> (r: usize)
    requires
        p + 3 <= file@.len(),
    ensures
        r as nat == u24_be(file@, p as int),
{
    read_u24_be(slice_subrange(file, p, file.len())) as usize
}

/// Checks the fixed header of the message at `off` and returns its length.
pub fn read_header(file: &[u8], off: usize) -> (r: Result<usize, Grib1Error>)
    ensures
        match r {
            Ok(l) => header_spec(file@, off as int) == Ok::<nat, Grib1Error>(l as nat),
            Err(e) => header_spec(file@, off as int) == Err::<nat, Grib1Error>(e),
        },
{
    assert(file@.len() == file.len());
    if file.len() < MAGIC_LEN || off > file.len() - MAGIC_LEN {
        return Err(Grib1Error::IoError);
    }
    let h = slice_subrange(file, off, file.len());
    if !(h[0] == 0x47u8 && h[1] == 0x52u8 && h[2] == 0x49u8 && h[3] == 0x42u8) {
        return Err(Grib1Error::WrongHeader);
    }
    if file.len() < HEADER_LEN || off > file.len() - HEADER_LEN {
        return Err(Grib1Error::IoError);
    }
    let length = read_u24_be(slice_subrange(h, 4, h.len()));
    let version = h[7];
    if version != 1 {
        return Err(Grib1Error::WrongVersion(version));
    }
    if length == 0 {
        return Err(Grib1Error::Malformed);
    }
    if length as usize > file.len() - off {
        return Err(Grib1Error::IoError);
    }
    Ok(length as usize)
}

/// Decodes the sections of the message at `off` that come before its binary
/// data. Returns the message without binary data, where that data starts, and
/// how many grid points it holds.
fn read_sections(file: &[u8], off: usize, length: usize) -> (r: Result<(Grib, usize, usize), Grib1Error>)
    requires
        header_spec(file@, off as int) == Ok::<nat, Grib1Error>(length as nat),
    ensures
        match r {
            Ok((g, next, count)) => sections_spec(file@, off as int) is Ok && g@ == grib_spec(
                file@,
                off as int,
                false,
            ) && next as int == bds_pos(file@, off as int) && count as nat == point_count(
                file@,
                off as int,
            ),
            Err(e) => sections_spec(file@, off as int) == Err::<(), Grib1Error>(e),
        },
{
    let ghost f = file@;
    assert(f.len() == file.len());
    let p = off + HEADER_LEN;
    let pds = match read_pds(file, p) {
        Ok(x) => x,
        Err(e) => return Err(e),
    };
    let mut next = p + prefix_length(file, p);
    assert(next == gds_pos(f, off as int));
    let mut result = Grib { length: length as u64, pds, gds: None, bds: None };
    let mut number_of_lat_values: u16 = 0;
    let mut number_of_lon_values: u16 = 0;
    if pds.has_gds() {
        let gds = match read_gds(file, next) {
            Ok(x) => x,
            Err(e) => return Err(e),
        };
        if let DataRepresentation::RotatedLatLon(value) = gds.data {
            number_of_lat_values = value.number_of_lat_values;
            number_of_lon_values = value.number_of_lon_values;
        }
        next = next + prefix_length(file, next);
        result.gds = Some(gds);
    }
    assert(next == bmp_pos(f, off as int));
    if pds.has_bmp() {
        let _bitmap = match read_bitmap(file, next) {
            Ok(x) => x,
            Err(e) => return Err(e),
        };
        next = next + prefix_length(file, next);
    }
    assert(next == bds_pos(f, off as int));
    assert(number_of_lat_values as nat * number_of_lon_values as nat <= 0xffff * 0xffff) by (nonlinear_arith)
        requires
            number_of_lat_values <= 0xffff,
            number_of_lon_values <= 0xffff,
    ;
    let count: usize = number_of_lat_values as usize * number_of_lon_values as usize;
    Ok((result, next, count))
}

/// Whether a criterion of `search_list` matches `pds`.
pub fn search_matches(pds: &PDS, search_list: &Vec<SearchParams>) -> (r: bool)
    ensures
        r == any_match(*pds, search_list@),
{
    let mut k: usize = 0;
    while k < search_list.len()
        invariant
            0 <= k <= search_list@.len(),
            forall|j: int| 0 <= j < k ==> !criterion_matches(*pds, #[trigger] search_list@[j]),
        decreases search_list@.len() - k,
    {
        let item = search_list[k];
        if pds.indicator_of_parameter_and_units as u32 == item.param
            && pds.level_or_layer_value as u32 == item.level {
            assert(criterion_matches(*pds, search_list@[k as int]));
            return true;
        }
        k = k + 1;
    }
    false
}

/// Scans the message that starts at `off`: checks its header, decodes its
/// product definition and, as its flags ask, its grid description and
/// bitmap. When a criterion of `search_list` matches, returns the decoded
/// message, with its binary data if `read_bds` holds; else its length alone.
pub fn read_grib(file: &[u8], off: usize, search_list: &Vec<SearchParams>, read_bds: bool) -> (r: Result<GribResult, Grib1Error>)
    ensures
        match r {
            Ok(GribResult::Grib(g)) => message_spec(file@, off as int, search_list@, read_bds)
                == Ok::<bool, Grib1Error>(true) && g@ == grib_spec(file@, off as int, read_bds),
            Ok(GribResult::Length(l)) => message_spec(file@, off as int, search_list@, read_bds)
                == Ok::<bool, Grib1Error>(false) && l as nat == message_length(file@, off as int),
            Err(e) => message_spec(file@, off as int, search_list@, read_bds) == Err::<
                bool,
                Grib1Error,
            >(e),
        },
{
    let length = match read_header(file, off) {
        Ok(l) => l,
        Err(e) => return Err(e),
    };
    let (mut result, next, count) = match read_sections(file, off, length) {
        Ok(t) => t,
        Err(e) => return Err(e),
    };
    if !search_matches(&result.pds, search_list) {
        return Ok(GribResult::Length(length as u64));
    }
    if read_bds {
        let bds = match crate::sections::read_bds(file, next, count) {
            Ok(x) => x,
            Err(e) => return Err(e),
        };
        result.bds = Some(bds);
    }
    Ok(GribResult::Grib(result))
}

} // verus!
