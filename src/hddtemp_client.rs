use vstd::prelude::*;

verus! {

/// Client of an hddtemp daemon. Reading the daemon's response over TCP is
/// left to the caller's I/O layer, which hands the text to
/// `HDDTempParser::parse_devices`.
#[derive(Debug, Clone, Copy, PartialEq, Eq, PartialOrd, Ord, Default)]
pub struct HDDTempClient;

} // verus!
