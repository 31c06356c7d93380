//! Client-side model of the hddtemp status protocol: unit and result codes,
//! per-device records and the parser for a whole daemon response.
pub mod hddtemp_client;
pub mod hddtemp_data;
pub mod hddtemp_error;
pub mod hddtemp_parser;
pub mod hddtemp_result;
pub mod hddtemp_units;
pub mod text;

pub use hddtemp_client::HDDTempClient;
pub use hddtemp_data::{DeviceTable, HDDTempData};
pub use hddtemp_error::HDDTempError;
pub use hddtemp_parser::HDDTempParser;
pub use hddtemp_result::HDDTempResult;
pub use hddtemp_units::HDDTempUnits;
