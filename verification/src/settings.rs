//! The choice of the server's listening address from the settings that the
//! environment supplies.

use crate::keywords::same_text;
use std::num::ParseIntError;
use vstd::prelude::*;

verus! {

/// The port that is used when none is given or the given one is no port
/// number.
pub const DEFAULT_PORT: u16 = 8888;

/// The address and port that the server binds to.
#[derive(Clone, Copy, Debug, PartialEq, Eq)]
pub struct ServerAddr {
    /// The IPv4 address, most significant byte first.
    pub address: (u8, u8, u8, u8),
    pub port: u16,
    /// Whether the production setting was chosen.
    pub production: bool,
}

/// Every character is a decimal digit, and there is at least one.
pub open spec fn is_digits(text: Seq<char>) -> bool {
    &&& text.len() > 0
    &&& forall|i: int| 0 <= i < text.len() ==> '0' <= #[trigger] text[i] <= '9'
}

/// The number that a run of decimal digits writes.
pub open spec fn digits_value(text: Seq<char>) -> int
    decreases text.len(),
{
    if text.len() == 0 {
        0
    } else {
        digits_value(text.drop_last()) * 10 + (text.last() as int - '0' as int)
    }
}

/// The port number that a text writes: decimal digits after an optional
/// plus sign, with a value that fits in sixteen bits.
pub open spec fn port_of(text: Seq<char>) -> Option<u16> {
    let digits = if text.len() > 0 && text[0] == '+' {
        text.subrange(1, text.len() as int)
    } else {
        text
    };
    if is_digits(digits) && digits_value(digits) <= u16::MAX {
        Some(digits_value(digits) as u16)
    } else {
        None
    }
}

/// The port that a setting selects.
pub open spec fn chosen_port(port: Option<Seq<char>>) -> u16 {
    match port {
        Some(text) => match port_of(text) {
            Some(number) => number,
            None => DEFAULT_PORT,
        },
        None => DEFAULT_PORT,
    }
}

/// `std::num::ParseIntError`, carried through as an opaque value.
#[verifier::external_type_specification]
#[verifier::external_body]
pub struct ExParseIntError(std::num::ParseIntError);

/// `str::parse` to a `u16`: the number that the text writes in decimal
/// digits after an optional plus sign, and an error when the text has any
/// other form or the number does not fit in sixteen bits.
#[verifier::external_body]
fn parse_port(text: &str) -> (port: Result<u16, ParseIntError>)
    ensures
        port is Ok <==> port_of(text@) is Some,
        port matches Ok(number) ==> port_of(text@) == Some(number),
{
    text.parse::<u16>()
}

/// Picks the listening address and port for the web server. The port is the
/// given one if it is a port number and 8888 otherwise. In production the
/// server binds to all addresses, and in any other setting to localhost
/// only.
pub fn get_server_addr(port: Option<&str>, app_env: Option<&str>) -> (addr: ServerAddr)
    ensures
        addr.port == chosen_port(
            match port {
                Some(text) => Some(text@),
                None => None,
            },
        ),
        addr.production == (app_env matches Some(name) && name@ == "production"@),
        addr.address == if addr.production {
            (0u8, 0u8, 0u8, 0u8)
        } else {
            (127u8, 0u8, 0u8, 1u8)
        },
{
    let port = match port {
        Some(text) => match parse_port(text) {
            Ok(number) => number,
            Err(_) => DEFAULT_PORT,
        },
        None => DEFAULT_PORT,
    };
    let production = match app_env {
        Some(name) => same_text(name, "production"),
        None => false,
    };
    if production {
        ServerAddr { address: (0, 0, 0, 0), port, production }
    } else {
        ServerAddr { address: (127, 0, 0, 1), port, production }
    }
}

} // verus!
