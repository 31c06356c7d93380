use crate::hddtemp_data::{lemma_map_of_last_wins, map_of, DeviceStatus, DeviceTable, HDDTempData};
use crate::hddtemp_error::HDDTempError;
use crate::hddtemp_result::{parse_result_spec, HDDTempResult};
use crate::hddtemp_units::{parse_unit_spec, HDDTempUnits};
use crate::text::{parse_u64, parse_u64_spec, same_text, split_spec, split_text, views};
use vstd::prelude::*;

verus! {

/// Column value that marks a device line as an error report.
pub const ASTERISK: &'static str = "*";

/// Separator used when the caller gives none. The daemon never uses `?` or `*`.
pub const SEPARATOR_DEFAULT: char = '|';

/// Parser of hddtemp daemon responses.
#[derive(Debug, Clone, Copy, PartialEq, Eq, PartialOrd, Ord, Default)]
pub struct HDDTempParser;

/// The separator in effect.
pub open spec fn separator_of(separator: Option<char>) -> char {
    match separator {
        Some(c) => c,
        None => SEPARATOR_DEFAULT,
    }
}

/// Column `i`, or the empty string where the line has fewer columns.
pub open spec fn column(cols: Seq<Seq<char>>, i: int) -> Seq<char> {
    if 0 <= i < cols.len() {
        cols[i]
    } else {
        Seq::empty()
    }
}

/// The identifier and record that one device line stands for.
pub open spec fn device_spec(line: Seq<char>, sep: char) -> (Seq<char>, DeviceStatus) {
    let cols = split_spec(line, seq![sep]);
    let model = column(cols, 1);
    if column(cols, 3) == seq!['*'] {
        let result = match parse_result_spec(column(cols, 2)) {
            Ok(k) => k,
            Err(_) => HDDTempResult::Known,
        };
        (column(cols, 0), DeviceStatus { model, result, temperature: None, units: None })
    } else {
        let units = match parse_unit_spec(column(cols, 3)) {
            Ok(u) => Some(u),
            Err(_) => None,
        };
        (
            column(cols, 0),
            DeviceStatus {
                model,
                result: HDDTempResult::Known,
                temperature: parse_u64_spec(column(cols, 2)),
                units,
            },
        )
    }
}

/// The response is wrapped in one separator on each side.
pub open spec fn envelope_spec(s: Seq<char>, sep: char) -> Result<Seq<char>, HDDTempError> {
    if s.len() == 0 || s[0] != sep {
        Err(HDDTempError::MissingStartDelimiter)
    } else if s.len() < 2 || s.last() != sep {
        Err(HDDTempError::MissingEndDelimiter)
    } else {
        Ok(s.subrange(1, s.len() - 1))
    }
}

/// The device segments of an envelope's body: cut at each doubled separator.
pub open spec fn segments_spec(body: Seq<char>, sep: char) -> Seq<Seq<char>> {
    split_spec(body, seq![sep, sep])
}

/// Each segment's identifier and record, in the order of the response.
pub open spec fn records_spec(body: Seq<char>, sep: char) -> Seq<(Seq<char>, DeviceStatus)> {
    segments_spec(body, sep).map_values(|seg: Seq<char>| device_spec(seg, sep))
}

/// The table that a response stands for, or why it is malformed.
pub open spec fn parse_devices_spec(s: Seq<char>, sep: char) -> Result<
    Map<Seq<char>, DeviceStatus>,
    HDDTempError,
> {
    match envelope_spec(s, sep) {
        Ok(body) => Ok(map_of(records_spec(body, sep))),
        Err(e) => Err(e),
    }
}

/// When a response names a device more than once, the table holds the record
/// of its last line.
pub proof fn lemma_later_line_wins(s: Seq<char>, sep: char, j: int)
    requires
        envelope_spec(s, sep) is Ok,
        0 <= j < records_spec(envelope_spec(s, sep)->Ok_0, sep).len(),
        forall|l: int|
            j < l < records_spec(envelope_spec(s, sep)->Ok_0, sep).len() ==> #[trigger] records_spec(
                envelope_spec(s, sep)->Ok_0,
                sep,
            )[l].0 != records_spec(envelope_spec(s, sep)->Ok_0, sep)[j].0,
    ensures
        ({
            let recs = records_spec(envelope_spec(s, sep)->Ok_0, sep);
            &&& parse_devices_spec(s, sep) is Ok
            &&& parse_devices_spec(s, sep)->Ok_0.contains_key(recs[j].0)
            &&& parse_devices_spec(s, sep)->Ok_0[recs[j].0] == recs[j].1
        }),
{
    lemma_map_of_last_wins(records_spec(envelope_spec(s, sep)->Ok_0, sep), j);
}

/// A line that reports a failed query carries neither a reading nor a unit.
pub proof fn lemma_failure_has_no_reading(line: Seq<char>, sep: char)
    ensures
        device_spec(line, sep).1.result != HDDTempResult::Known ==> {
            &&& device_spec(line, sep).1.temperature is None
            &&& device_spec(line, sep).1.units is None
        },
{
}

/// Parsing is deterministic: two tables parsed from the same response with
/// the same separator are equal.
pub proof fn lemma_parse_deterministic(s: Seq<char>, sep: char, a: DeviceTable, b: DeviceTable)
    requires
        parse_devices_spec(s, sep) == Ok::<Map<Seq<char>, DeviceStatus>, HDDTempError>(a@),
        parse_devices_spec(s, sep) == Ok::<Map<Seq<char>, DeviceStatus>, HDDTempError>(b@),
    ensures
        a@ == b@,
{
}

/// Column `i` of `cols`, or the empty string.
fn column_text(cols: &Vec<String>, i: usize) -> (r: &str)
    ensures
        r@ == column(views(cols@), i as int),
{
    if i < cols.len() {
        cols[i].as_str()
    } else {
        proof {
            reveal_strlit("");
        }
        ""
    }
}

impl HDDTempParser {
    /// Parses a whole response `|dev|model|temp|unit||dev|model|temp|unit|...|`
    /// into a table keyed by device; a later line for a device replaces an
    /// earlier one.
    pub fn parse_devices(s: &str, separator: Option<char>) -> (r: Result<DeviceTable, HDDTempError>)
        ensures
            match r {
                Ok(t) => t.wf() && parse_devices_spec(s@, separator_of(separator)) == Ok::<
                    Map<Seq<char>, DeviceStatus>,
                    HDDTempError,
                >(t@),
                Err(e) => parse_devices_spec(s@, separator_of(separator)) == Err::<
                    Map<Seq<char>, DeviceStatus>,
                    HDDTempError,
                >(e),
            },
    {
        let sep = match separator {
            Some(c) => c,
            None => SEPARATOR_DEFAULT,
        };
        let n = s.unicode_len();
        if n == 0 || s.get_char(0) != sep {
            return Err(HDDTempError::MissingStartDelimiter);
        }
        if n < 2 || s.get_char(n - 1) != sep {
            return Err(HDDTempError::MissingEndDelimiter);
        }
        let body = s.substring_char(1, n - 1);
        let segments = split_text(body, sep, true);
        let ghost recs = records_spec(body@, sep);
        let mut table = DeviceTable::new();
        let mut i: usize = 0;
        while i < segments.len()
            invariant
                views(segments@) == segments_spec(body@, sep),
                recs == records_spec(body@, sep),
                0 <= i <= segments@.len(),
                table.wf(),
                table@ == map_of(recs.subrange(0, i as int)),
            decreases segments@.len() - i,
        {
            match HDDTempParser::parse_device(segments[i].as_str(), Some(sep)) {
                Ok((device, data)) => {
                    assert(recs.subrange(0, i + 1).drop_last() =~= recs.subrange(0, i as int));
                    table.insert(device, data);
                },
                Err(e) => {
                    return Err(e);
                },
            }
            i = i + 1;
        }
        assert(recs.subrange(0, i as int) =~= recs);
        Ok(table)
    }

    /// Parses one device line `dev|model|temp|unit` or `dev|model|kind|*`.
    /// It never fails: missing or unreadable columns leave fields empty.
    pub fn parse_device(s: &str, separator: Option<char>) -> (r: Result<
        (String, HDDTempData),
        HDDTempError,
    >)
        ensures
            match r {
                Ok((device, data)) => (device@, data@) == device_spec(s@, separator_of(separator)),
                Err(_) => false,
            },
    {
        let sep = match separator {
            Some(c) => c,
            None => SEPARATOR_DEFAULT,
        };
        let columns = split_text(s, sep, false);
        let device = String::from_str(column_text(&columns, 0));
        let model = String::from_str(column_text(&columns, 1));
        proof {
            reveal_strlit("*");
        }
        assert(ASTERISK@ =~= seq!['*']);
        // A `*` in the last column marks an error report whose kind stands in
        // the column before. An unreadable kind is kept as `Known`, with no
        // reading, as the daemon's clients always did.
        if same_text(column_text(&columns, 3), ASTERISK) {
            let result = match HDDTempResult::from_token(column_text(&columns, 2)) {
                Ok(k) => k,
                Err(_) => HDDTempResult::Known,
            };
            Ok((device, HDDTempData { model, result, temperature: None, units: None }))
        } else {
            let temperature = parse_u64(column_text(&columns, 2));
            let units = match HDDTempUnits::from_token(column_text(&columns, 3)) {
                Ok(u) => Some(u),
                Err(_) => None,
            };
            Ok((device, HDDTempData { model, result: HDDTempResult::Known, temperature, units }))
        }
    }
}

} // verus!
