//! The reporter's HTTP protocol work that is pure computation: framing
//! the POST request for a report body, reading the status code out of a
//! response, and classifying the outcome as success or failure.

use vstd::prelude::*;
use vstd::string::StringExecFns;

verus! {

/// The decimal digit character for a value below ten.
pub open spec fn dec_digit(n: int) -> char {
    if n == 0 {
        '0'
    } else if n == 1 {
        '1'
    } else if n == 2 {
        '2'
    } else if n == 3 {
        '3'
    } else if n == 4 {
        '4'
    } else if n == 5 {
        '5'
    } else if n == 6 {
        '6'
    } else if n == 7 {
        '7'
    } else if n == 8 {
        '8'
    } else {
        '9'
    }
}

/// The decimal rendering of a non-negative number, most significant
/// digit first, no leading zeros (zero itself renders as "0").
pub open spec fn dec_digits(n: int) -> Seq<char>
    decreases n,
{
    if n < 10 {
        seq![dec_digit(n)]
    } else {
        dec_digits(n / 10).push(dec_digit(n % 10))
    }
}

/// Appends the decimal rendering of `n` to `out`.
fn append_decimal(out: &mut String, n: u64)
    ensures
        final(out)@ == old(out)@ + dec_digits(n as int),
    decreases n,
{
    if n >= 10 {
        append_decimal(out, n / 10);
    }
    let d = (n % 10) as u32;
    let c: char = if d == 0 {
        '0'
    } else if d == 1 {
        '1'
    } else if d == 2 {
        '2'
    } else if d == 3 {
        '3'
    } else if d == 4 {
        '4'
    } else if d == 5 {
        '5'
    } else if d == 6 {
        '6'
    } else if d == 7 {
        '7'
    } else if d == 8 {
        '8'
    } else {
        '9'
    };
    assert(c == dec_digit(n as int % 10));
    crate::encode::push_char(out, c);
    proof {
        if n < 10 {
            assert(old(out)@.push(c) =~= old(out)@ + dec_digits(n as int));
        } else {
            assert((old(out)@ + dec_digits(n as int / 10)).push(c) =~= old(out)@ + dec_digits(
                n as int,
            ));
        }
    }
}

/// The decimal rendering of a number as a fresh string.
pub fn decimal_string(n: u64) -> (out: String)
    ensures
        out@ == dec_digits(n as int),
{
    let mut out = String::new();
    append_decimal(&mut out, n);
    proof {
        assert(Seq::<char>::empty() + dec_digits(n as int) =~= dec_digits(n as int));
    }
    out
}

/// The head of the POST request that carries a report: request line,
/// host, JSON content type, the exact body length in bytes, and a
/// close delimiter, each line ended by CRLF, then the blank line.
pub open spec fn request_head(host: Seq<char>, path: Seq<char>, body_len: int) -> Seq<char> {
    "POST "@ + path + " HTTP/1.1\r\nHost: "@ + host
        + "\r\nContent-Type: application/json\r\nContent-Length: "@ + dec_digits(body_len)
        + "\r\nConnection: close\r\n\r\n"@
}

/// Frames the request head for a report body of `body_len` bytes.
pub fn build_request_head(host: &String, path: &String, body_len: usize) -> (out: String)
    ensures
        out@ == request_head(host@, path@, body_len as int),
{
    let mut out = String::new();
    out.append("POST ");
    out.append(path.as_str());
    out.append(" HTTP/1.1\r\nHost: ");
    out.append(host.as_str());
    out.append("\r\nContent-Type: application/json\r\nContent-Length: ");
    append_decimal(&mut out, body_len as u64);
    out.append("\r\nConnection: close\r\n\r\n");
    proof {
        assert(out@ =~= request_head(host@, path@, body_len as int));
    }
    out
}

/// Whether a byte is an ASCII decimal digit.
pub open spec fn is_digit_byte(b: u8) -> bool {
    48 <= b <= 57
}

/// The status code spelled by the first three bytes, if they are three
/// digits.
pub open spec fn three_digit_status(r: Seq<u8>) -> Option<u16> {
    if r.len() >= 3 && is_digit_byte(r[0]) && is_digit_byte(r[1]) && is_digit_byte(r[2]) {
        Some((100 * (r[0] - 48) + 10 * (r[1] - 48) + (r[2] - 48)) as u16)
    } else {
        None
    }
}

/// The status code of an HTTP response: the three digits that follow
/// the first space of the status line, as in `HTTP/1.1 200 OK`.
pub open spec fn status_of(r: Seq<u8>) -> Option<u16>
    decreases r.len(),
{
    if r.len() == 0 {
        None
    } else if r[0] == 32 {
        three_digit_status(r.skip(1))
    } else {
        status_of(r.skip(1))
    }
}

/// Reads the status code out of a raw HTTP response.
pub fn parse_status_code(resp: &Vec<u8>) -> (r: Option<u16>)
    ensures
        r == status_of(resp@),
{
    let n = resp.len();
    let mut i: usize = 0;
    proof {
        assert(resp@.skip(0) =~= resp@);
    }
    while i < n
        invariant
            n == resp@.len(),
            i <= n,
            status_of(resp@) == status_of(resp@.skip(i as int)),
        decreases n - i,
    {
        if resp[i] == 32 {
            let ghost rest = resp@.skip(i + 1);
            proof {
                assert(resp@.skip(i as int)[0] == resp@[i as int]);
                assert(resp@.skip(i as int).skip(1) =~= rest);
                assert(status_of(resp@) == three_digit_status(rest));
            }
            if n - i > 3 {
                let b0 = resp[i + 1];
                let b1 = resp[i + 2];
                let b2 = resp[i + 3];
                proof {
                    assert(rest[0] == resp@[i + 1]);
                    assert(rest[1] == resp@[i + 2]);
                    assert(rest[2] == resp@[i + 3]);
                }
                if 48 <= b0 && b0 <= 57 && 48 <= b1 && b1 <= 57 && 48 <= b2 && b2 <= 57 {
                    let code: u16 = 100 * ((b0 - 48) as u16) + 10 * ((b1 - 48) as u16) + ((b2 - 48)
                        as u16);
                    return Some(code);
                } else {
                    return None;
                }
            } else {
                proof {
                    assert(rest.len() < 3);
                }
                return None;
            }
        }
        proof {
            assert(resp@.skip(i as int)[0] == resp@[i as int]);
            assert(resp@.skip(i as int).skip(1) =~= resp@.skip(i + 1));
        }
        i += 1;
    }
    proof {
        assert(resp@.skip(n as int).len() == 0);
    }
    None
}

/// Why a report failed: the collector could not be reached (or sent no
/// readable status line), or it answered with a non-success status.
#[derive(Clone, Copy, Debug, PartialEq, Eq, Structural)]
pub enum ReportError {
    Transport,
    BadStatus(u16),
}

/// Whether a status code counts as success: any code in the 2xx range.
pub open spec fn spec_is_success(code: u16) -> bool {
    200 <= code < 300
}

/// Classifies a status code: success is any 2xx code.
pub fn is_success_status(code: u16) -> (b: bool)
    ensures
        b == spec_is_success(code),
{
    200 <= code && code < 300
}

/// The outcome of one report exchange, from the raw response if one
/// arrived: no response or no readable status line is a transport
/// failure, a non-2xx status is a bad-status failure, a 2xx status is
/// success.
pub open spec fn outcome_of(resp: Option<Seq<u8>>) -> Result<u16, ReportError> {
    match resp {
        Option::None => Result::Err(ReportError::Transport),
        Option::Some(bytes) => match status_of(bytes) {
            Option::None => Result::Err(ReportError::Transport),
            Option::Some(code) => if spec_is_success(code) {
                Result::Ok(code)
            } else {
                Result::Err(ReportError::BadStatus(code))
            },
        },
    }
}

/// The raw bytes of an optional response, as the outcome spec reads
/// them.
pub open spec fn resp_bytes(resp: Option<Vec<u8>>) -> Option<Seq<u8>> {
    match resp {
        Option::None => Option::None,
        Option::Some(v) => Option::Some(v@),
    }
}

/// Classifies one report exchange: `resp` is the raw response, or
/// `None` when the transport failed before one arrived.
pub fn classify_response(resp: &Option<Vec<u8>>) -> (r: Result<u16, ReportError>)
    ensures
        r == outcome_of(resp_bytes(*resp)),
{
    match resp {
        Option::None => Result::Err(ReportError::Transport),
        Option::Some(bytes) => match parse_status_code(bytes) {
            Option::None => Result::Err(ReportError::Transport),
            Option::Some(code) => if is_success_status(code) {
                Result::Ok(code)
            } else {
                Result::Err(ReportError::BadStatus(code))
            },
        },
    }
}

/// The diagnostic line for a report failure.
pub open spec fn error_message(e: ReportError) -> Seq<char> {
    match e {
        ReportError::Transport => "HTTP transport error"@,
        ReportError::BadStatus(code) => "Bad response code: "@ + dec_digits(code as int),
    }
}

impl ReportError {
    /// The human-readable description of this failure, for the
    /// diagnostic stream.
    pub fn message(&self) -> (m: String)
        ensures
            m@ == error_message(*self),
    {
        match self {
            ReportError::Transport => {
                let mut m = String::new();
                m.append("HTTP transport error");
                proof {
                    assert(m@ =~= error_message(*self));
                }
                m
            },
            ReportError::BadStatus(code) => {
                let mut m = String::new();
                m.append("Bad response code: ");
                append_decimal(&mut m, *code as u64);
                proof {
                    assert(m@ =~= error_message(*self));
                }
                m
            },
        }
    }
}

} // verus!
