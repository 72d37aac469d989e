//! The agent's identity: the string given on the command line, or a
//! freshly generated ten-character alphanumeric one.

use vstd::prelude::*;

use rand::distr::SampleString;

verus! {

/// Whether a character is an ASCII letter or digit.
pub open spec fn is_alphanumeric_char(c: char) -> bool {
    (48 <= c as u32 <= 57) || (65 <= c as u32 <= 90) || (97 <= c as u32 <= 122)
}

/// Relies on rand's `Alphanumeric` distribution through
/// `SampleString::sample_string`: the result is exactly `10`
/// characters, each drawn from the 62 ASCII letters and digits. Which
/// characters come out is left open.
#[verifier::external_body]
fn random_alphanumeric_id() -> (r: String)
    ensures
        r@.len() == 10,
        forall|i: int| 0 <= i < r@.len() ==> is_alphanumeric_char(#[trigger] r@[i]),
{
    rand::distr::Alphanumeric.sample_string(&mut rand::rng(), 10)
}

/// The identity the agent runs under: the requested one when one was
/// given, otherwise a fresh ten-character alphanumeric string.
pub fn resolve_agent_id(requested: Option<String>) -> (id: String)
    ensures
        match requested {
            Option::Some(s) => id@ == s@,
            Option::None => id@.len() == 10 && forall|i: int|
                0 <= i < id@.len() ==> is_alphanumeric_char(#[trigger] id@[i]),
        },
{
    match requested {
        Option::Some(s) => s,
        Option::None => random_alphanumeric_id(),
    }
}

} // verus!
