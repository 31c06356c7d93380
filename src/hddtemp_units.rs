use crate::hddtemp_error::HDDTempError;
use vstd::prelude::*;

verus! {

/// Character that stands for degrees Celsius.
pub const CELSIUS: char = 'C';

/// Character that stands for degrees Fahrenheit.
pub const FAHRENHEIT: char = 'F';

/// Units for a temperature reading.
#[derive(Debug, Clone, Copy, PartialEq, Eq, Structural, PartialOrd, Ord, Hash, Default)]
pub enum HDDTempUnits {
    /// `C`
    #[default]
    Celsius,
    /// `F`
    Fahrenheit,
}

/// The single character that encodes a unit.
pub open spec fn unit_char(u: HDDTempUnits) -> char {
    match u {
        HDDTempUnits::Celsius => CELSIUS,
        HDDTempUnits::Fahrenheit => FAHRENHEIT,
    }
}

/// A unit token is decided by its first character alone; the rest is ignored.
pub open spec fn parse_unit_spec(s: Seq<char>) -> Result<HDDTempUnits, HDDTempError> {
    if s.len() > 0 && s[0] == CELSIUS {
        Ok(HDDTempUnits::Celsius)
    } else if s.len() > 0 && s[0] == FAHRENHEIT {
        Ok(HDDTempUnits::Fahrenheit)
    } else {
        Err(HDDTempError::InvalidFormat)
    }
}

impl HDDTempUnits {
    /// Reads a unit from the first character of `s`.
    pub fn from_token(s: &str) -> (r: Result<HDDTempUnits, HDDTempError>)
        ensures
            r == parse_unit_spec(s@),
    {
        if s.unicode_len() == 0 {
            return Err(HDDTempError::InvalidFormat);
        }
        let c = s.get_char(0);
        if c == CELSIUS {
            Ok(HDDTempUnits::Celsius)
        } else if c == FAHRENHEIT {
            Ok(HDDTempUnits::Fahrenheit)
        } else {
            Err(HDDTempError::InvalidFormat)
        }
    }

    /// The character that encodes this unit.
    pub fn to_char(&self) -> (c: char)
        ensures
            c == unit_char(*self),
    {
        match self {
            HDDTempUnits::Celsius => CELSIUS,
            HDDTempUnits::Fahrenheit => FAHRENHEIT,
        }
    }

    /// The unit's one-character token as an owned string.
    pub fn to_string(&self) -> (r: String)
        ensures
            r@ == seq![unit_char(*self)],
    {
        proof {
            reveal_strlit("C");
            reveal_strlit("F");
        }
        match self {
            HDDTempUnits::Celsius => String::from_str("C"),
            HDDTempUnits::Fahrenheit => String::from_str("F"),
        }
    }
}

/// Every unit reads back from its token.
pub proof fn lemma_unit_round_trip(u: HDDTempUnits)
    ensures
        parse_unit_spec(seq![unit_char(u)]) == Ok::<HDDTempUnits, HDDTempError>(u),
{
}

impl std::str::FromStr for HDDTempUnits {
    type Err = HDDTempError;

    fn from_str(s: &str) -> Result<HDDTempUnits, HDDTempError> {
        HDDTempUnits::from_token(s)
    }
}

} // verus!
