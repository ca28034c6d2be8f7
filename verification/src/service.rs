//! The lookup service: the stateless query surface over a loaded registry.

use vstd::prelude::*;

use crate::model::{all_digits, find_key, is_c2s_token, is_digit_char, is_s2c_token, Entry};
use crate::registry::{pair_entries, Direction, PacketRegistry};

verus! {

/// The ways a lookup query can fail.
#[derive(Clone, Copy, PartialEq, Eq, Structural, Debug)]
pub enum LookupError {
    /// The id token holds a character that is not a decimal digit.
    InvalidIdFormat,
    /// The direction token is neither of the two recognized values.
    UnknownDirection,
    /// The id is well formed but absent from the chosen direction's map.
    PacketNotFound,
}

impl LookupError {
    /// The user-facing message for this error.
    pub fn message(&self) -> (r: &'static str)
        ensures
            *self == LookupError::InvalidIdFormat ==> r@ == "Invalid ID, must be a number!"@,
            *self == LookupError::UnknownDirection ==> r@ == "Invalid bound, please use \"c2s\" OR \"s2c\"!"@,
            *self == LookupError::PacketNotFound ==> r@ == "No such packet!"@,
    {
        match self {
            LookupError::InvalidIdFormat => "Invalid ID, must be a number!",
            LookupError::UnknownDirection => "Invalid bound, please use \"c2s\" OR \"s2c\"!",
            LookupError::PacketNotFound => "No such packet!",
        }
    }
}

/// Whether the token consists of decimal digits only.
pub fn is_string_numeric(s: &str) -> (r: bool)
    ensures
        r == all_digits(s@),
{
    let n = s.unicode_len();
    let mut i: usize = 0;
    while i < n
        invariant
            i <= n,
            n == s@.len(),
            forall|j: int| 0 <= j < i ==> is_digit_char(#[trigger] s@[j]),
        decreases n - i,
    {
        let c = s.get_char(i);
        if !('0' <= c && c <= '9') {
            return false;
        }
        i += 1;
    }
    true
}

/// Parses a direction token: `c2s` names server-bound traffic and `s2c`
/// names client-bound traffic, each matched without regard to letter case.
pub fn parse_direction(token: &str) -> (r: Option<Direction>)
    ensures
        is_c2s_token(token@) ==> r == Some(Direction::ServerBound),
        is_s2c_token(token@) ==> r == Some(Direction::ClientBound),
        !is_c2s_token(token@) && !is_s2c_token(token@) ==> r is None,
{
    if token.unicode_len() != 3 {
        return None;
    }
    let c0 = token.get_char(0);
    let c1 = token.get_char(1);
    let c2 = token.get_char(2);
    if c1 != '2' {
        return None;
    }
    if (c0 == 'c' || c0 == 'C') && (c2 == 's' || c2 == 'S') {
        Some(Direction::ServerBound)
    } else if (c0 == 's' || c0 == 'S') && (c2 == 'c' || c2 == 'C') {
        Some(Direction::ClientBound)
    } else {
        None
    }
}

/// The outcome a lookup query must have, over the model: an id token with
/// a character that is not a decimal digit is rejected before anything
/// else; then an unrecognized direction token; then the chosen direction's
/// map decides between the registered name and a miss.
pub open spec fn lookup_spec(
    client: Seq<Entry>,
    server: Seq<Entry>,
    id: Seq<char>,
    dir: Seq<char>,
) -> Result<Seq<char>, LookupError> {
    if !all_digits(id) {
        Err(LookupError::InvalidIdFormat)
    } else if is_c2s_token(dir) {
        match find_key(server, id) {
            Some(v) => Ok(v),
            None => Err(LookupError::PacketNotFound),
        }
    } else if is_s2c_token(dir) {
        match find_key(client, id) {
            Some(v) => Ok(v),
            None => Err(LookupError::PacketNotFound),
        }
    } else {
        Err(LookupError::UnknownDirection)
    }
}

/// Answers one lookup query against a loaded registry: `raw_id` must be a
/// decimal id token and `direction_token` one of the two direction names.
pub fn lookup_packet(reg: &PacketRegistry, raw_id: &str, direction_token: &str) -> (r: Result<
    String,
    LookupError,
>)
    ensures
        ({
            let expect = lookup_spec(
                reg.client_entries(),
                reg.server_entries(),
                raw_id@,
                direction_token@,
            );
            match r {
                Ok(name) => expect == Ok::<Seq<char>, LookupError>(name@),
                Err(e) => expect == Err::<Seq<char>, LookupError>(e),
            }
        }),
{
    if !is_string_numeric(raw_id) {
        return Err(LookupError::InvalidIdFormat);
    }
    match parse_direction(direction_token) {
        None => Err(LookupError::UnknownDirection),
        Some(d) => match reg.get(d, raw_id) {
            Some(name) => Ok(name),
            None => Err(LookupError::PacketNotFound),
        },
    }
}

/// Enumerates the whole registry: the client-bound entries and the
/// server-bound entries, each in insertion order.  Never fails, and leaves
/// an empty registry's two sequences empty.
pub fn list_all(reg: &PacketRegistry) -> (r: (Vec<(String, String)>, Vec<(String, String)>))
    ensures
        pair_entries(r.0@) == reg.client_entries(),
        pair_entries(r.1@) == reg.server_entries(),
{
    (reg.iter(Direction::ClientBound), reg.iter(Direction::ServerBound))
}

} // verus!
