//! Checks on the values given on the command line.

use vstd::prelude::*;
use crate::text::{parse_usize, unsigned_value};

verus! {

/// The number of results or tracks to ask for: an integer of at least 1.
pub fn parse_search_limit(value: &str) -> (r: std::result::Result<usize, String>)
    ensures
        match unsigned_value(value@) {
            Some(n) if 1 <= n <= usize::MAX => r == Ok::<usize, String>(n as usize),
            _ => r matches Err(m) && m@ == "el límite debe ser un entero mayor o igual a 1"@,
        },
{
    match parse_usize(value) {
        Some(limit) if limit >= 1 => Ok(limit),
        _ => Err("el límite debe ser un entero mayor o igual a 1".to_owned()),
    }
}

/// A volume level: an integer from 0 to 100.
pub fn parse_volume(value: &str) -> (r: std::result::Result<u8, String>)
    ensures
        match unsigned_value(value@) {
            Some(n) if n <= 100 => r == Ok::<u8, String>(n as u8),
            _ => r matches Err(m) && m@ == "el volumen debe ser un entero entre 0 y 100"@,
        },
{
    match parse_usize(value) {
        Some(level) if level <= 100 => Ok(level as u8),
        _ => Err("el volumen debe ser un entero entre 0 y 100".to_owned()),
    }
}

} // verus!
