use crate::hddtemp_error::HDDTempError;
use crate::text::same_text;
use vstd::prelude::*;

verus! {

/// Token of `HDDTempResult::Error`.
pub const GETTEMP_ERROR: &'static str = "ERR";

/// Token of `HDDTempResult::NotApplicable`.
pub const GETTEMP_NOT_APPLICABLE: &'static str = "NA";

/// Token of `HDDTempResult::Unknown`: the drive is not in the daemon's database.
pub const GETTEMP_UNKNOWN: &'static str = "UNK";

/// Token of `HDDTempResult::Known`: the drive is in the database.
pub const GETTEMP_KNOWN: &'static str = "";

/// Token of `HDDTempResult::NoSensor`: the drive is known to have no sensor.
pub const GETTEMP_NOSENSOR: &'static str = "NOS";

/// Token of `HDDTempResult::DriveSleep`: the drive is sleeping.
pub const GETTEMP_DRIVE_SLEEP: &'static str = "SLP";

/// Outcome of one drive's temperature query in the hddtemp daemon.
#[derive(Debug, Clone, Copy, PartialEq, Eq, Structural, PartialOrd, Ord, Hash, Default)]
pub enum HDDTempResult {
    /// `ERR` Error
    Error,
    /// `NA`
    NotApplicable,
    /// `UNK` Drive is not in database
    Unknown,
    /// `` Drive appears in database
    #[default]
    Known,
    /// `NOS` Drive appears in database but is known to have no sensor
    NoSensor,
    /// `SLP` Drive is sleeping
    DriveSleep,
}

/// The protocol token of each result kind.
pub open spec fn result_token(k: HDDTempResult) -> Seq<char> {
    match k {
        HDDTempResult::Error => seq!['E', 'R', 'R'],
        HDDTempResult::NotApplicable => seq!['N', 'A'],
        HDDTempResult::Unknown => seq!['U', 'N', 'K'],
        HDDTempResult::Known => Seq::empty(),
        HDDTempResult::NoSensor => seq!['N', 'O', 'S'],
        HDDTempResult::DriveSleep => seq!['S', 'L', 'P'],
    }
}

/// A result token is one of the five failure tokens, matched exactly;
/// the empty token of `Known` is not accepted.
pub open spec fn parse_result_spec(s: Seq<char>) -> Result<HDDTempResult, HDDTempError> {
    if s == result_token(HDDTempResult::Error) {
        Ok(HDDTempResult::Error)
    } else if s == result_token(HDDTempResult::NotApplicable) {
        Ok(HDDTempResult::NotApplicable)
    } else if s == result_token(HDDTempResult::Unknown) {
        Ok(HDDTempResult::Unknown)
    } else if s == result_token(HDDTempResult::NoSensor) {
        Ok(HDDTempResult::NoSensor)
    } else if s == result_token(HDDTempResult::DriveSleep) {
        Ok(HDDTempResult::DriveSleep)
    } else {
        Err(HDDTempError::InvalidFormat)
    }
}

impl HDDTempResult {
    /// The token as a string slice.
    pub fn as_token(&self) -> (r: &'static str)
        ensures
            r@ == result_token(*self),
    {
        proof {
            reveal_strlit("ERR");
            reveal_strlit("NA");
            reveal_strlit("UNK");
            reveal_strlit("");
            reveal_strlit("NOS");
            reveal_strlit("SLP");
        }
        match self {
            HDDTempResult::Error => GETTEMP_ERROR,
            HDDTempResult::NotApplicable => GETTEMP_NOT_APPLICABLE,
            HDDTempResult::Unknown => GETTEMP_UNKNOWN,
            HDDTempResult::Known => GETTEMP_KNOWN,
            HDDTempResult::NoSensor => GETTEMP_NOSENSOR,
            HDDTempResult::DriveSleep => GETTEMP_DRIVE_SLEEP,
        }
    }

    /// The token as an owned string (`Known` gives the empty string).
    pub fn to_string(&self) -> (r: String)
        ensures
            r@ == result_token(*self),
    {
        String::from_str(self.as_token())
    }

    /// Reads a result kind from its exact token.
    pub fn from_token(s: &str) -> (r: Result<HDDTempResult, HDDTempError>)
        ensures
            r == parse_result_spec(s@),
    {
        if same_text(s, HDDTempResult::Error.as_token()) {
            Ok(HDDTempResult::Error)
        } else if same_text(s, HDDTempResult::NotApplicable.as_token()) {
            Ok(HDDTempResult::NotApplicable)
        } else if same_text(s, HDDTempResult::Unknown.as_token()) {
            Ok(HDDTempResult::Unknown)
        } else if same_text(s, HDDTempResult::NoSensor.as_token()) {
            Ok(HDDTempResult::NoSensor)
        } else if same_text(s, HDDTempResult::DriveSleep.as_token()) {
            Ok(HDDTempResult::DriveSleep)
        } else {
            Err(HDDTempError::InvalidFormat)
        }
    }
}

/// Every kind but `Known` reads back from its token; `Known`'s empty token is
/// never handed to the token parser.
pub proof fn lemma_result_round_trip(k: HDDTempResult)
    requires
        k != HDDTempResult::Known,
    ensures
        parse_result_spec(result_token(k)) == Ok::<HDDTempResult, HDDTempError>(k),
{
    assert(seq!['E', 'R', 'R'] != seq!['N', 'A']) by {
        assert(seq!['E', 'R', 'R'].len() != seq!['N', 'A'].len());
    }
    assert(seq!['U', 'N', 'K'] != seq!['E', 'R', 'R']) by {
        assert(seq!['U', 'N', 'K'][0] != seq!['E', 'R', 'R'][0]);
    }
    assert(seq!['N', 'O', 'S'] != seq!['E', 'R', 'R']) by {
        assert(seq!['N', 'O', 'S'][0] != seq!['E', 'R', 'R'][0]);
    }
    assert(seq!['N', 'O', 'S'] != seq!['U', 'N', 'K']) by {
        assert(seq!['N', 'O', 'S'][0] != seq!['U', 'N', 'K'][0]);
    }
    assert(seq!['N', 'O', 'S'] != seq!['N', 'A']) by {
        assert(seq!['N', 'O', 'S'].len() != seq!['N', 'A'].len());
    }
    assert(seq!['S', 'L', 'P'] != seq!['E', 'R', 'R']) by {
        assert(seq!['S', 'L', 'P'][0] != seq!['E', 'R', 'R'][0]);
    }
    assert(seq!['S', 'L', 'P'] != seq!['U', 'N', 'K']) by {
        assert(seq!['S', 'L', 'P'][0] != seq!['U', 'N', 'K'][0]);
    }
    assert(seq!['S', 'L', 'P'] != seq!['N', 'O', 'S']) by {
        assert(seq!['S', 'L', 'P'][0] != seq!['N', 'O', 'S'][0]);
    }
    assert(seq!['S', 'L', 'P'] != seq!['N', 'A']) by {
        assert(seq!['S', 'L', 'P'].len() != seq!['N', 'A'].len());
    }
}

impl std::str::FromStr for HDDTempResult {
    type Err = HDDTempError;

    fn from_str(s: &str) -> Result<HDDTempResult, HDDTempError> {
        HDDTempResult::from_token(s)
    }
}

} // verus!
