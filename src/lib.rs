//! Reads GRIB edition 1 files: finds the messages whose parameter and level
//! match a search, decodes their sections, or extracts their bytes whole.
//! Only the rotated latitude/longitude grid is decoded into its fields.
pub mod bits;
pub mod bytes;
pub mod error;
pub mod laws;
pub mod message;
pub mod reader;
pub mod sections;

pub use bits::unpack_bits;
pub use bytes::{read_f32_ibm, read_i16_be, read_i24_be, read_u16_be, read_u24_be, IbmFloat};
pub use error::Grib1Error;
pub use message::{read_grib, Grib, GribResult, SearchParams};
pub use reader::Grib1Reader;
pub use sections::{Bitmap, DataRepresentation, RotatedLatLon, BDS, GDS, PDS};
