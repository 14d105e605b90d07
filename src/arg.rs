//! The run's configuration as plain values: the request method, the parsing
//! of numbers and durations given as text, and the rules that tie options
//! together.

use vstd::prelude::*;
use vstd::string::StringSliceAdditionalSpecFns;

verus! {

/// The supported request methods.
#[derive(Clone, Copy, Debug, PartialEq, Eq, Hash, Structural)]
pub enum Method {
    Get,
    Post,
    Put,
    Delete,
    Head,
    Patch,
}

/// The name of a method on the wire.
pub open spec fn method_name(m: Method) -> Seq<char> {
    match m {
        Method::Get => seq!['G', 'E', 'T'],
        Method::Post => seq!['P', 'O', 'S', 'T'],
        Method::Put => seq!['P', 'U', 'T'],
        Method::Delete => seq!['D', 'E', 'L', 'E', 'T', 'E'],
        Method::Head => seq!['H', 'E', 'A', 'D'],
        Method::Patch => seq!['P', 'A', 'T', 'C', 'H'],
    }
}

impl Method {
    /// The name of the method on the wire.
    pub fn name(&self) -> (r: &'static str)
        ensures
            r@ == method_name(*self),
    {
        let r = match self {
            Method::Get => "GET",
            Method::Post => "POST",
            Method::Put => "PUT",
            Method::Delete => "DELETE",
            Method::Head => "HEAD",
            Method::Patch => "PATCH",
        };
        proof {
            reveal_strlit("GET");
            reveal_strlit("POST");
            reveal_strlit("PUT");
            reveal_strlit("DELETE");
            reveal_strlit("HEAD");
            reveal_strlit("PATCH");
        }
        r
    }
}

/// An ASCII decimal digit.
pub open spec fn is_digit(b: u8) -> bool {
    48 <= b <= 57
}

/// The value of a string of decimal digits.
pub open spec fn digits_value(s: Seq<u8>) -> int
    decreases s.len(),
{
    if s.len() == 0 {
        0
    } else {
        digits_value(s.drop_last()) * 10 + (s.last() - 48)
    }
}

/// The digits of a number: all of `s` after an optional leading `+`.
pub open spec fn number_digits(s: Seq<u8>) -> Seq<u8> {
    if s.len() > 0 && s[0] == 43 {
        s.subrange(1, s.len() as int)
    } else {
        s
    }
}

/// The `u64` that the text `s` denotes, as `u64::from_str` reads it: an
/// optional `+`, then one or more decimal digits whose value fits in 64 bits.
pub open spec fn u64_of(s: Seq<u8>) -> Option<u64> {
    let d = number_digits(s);
    if d.len() > 0 && (forall|i: int| 0 <= i < d.len() ==> is_digit(d[i])) && digits_value(d)
        <= u64::MAX {
        Some(digits_value(d) as u64)
    } else {
        None
    }
}

/// The seconds that the text `s` denotes: a number, or a number followed by
/// `s`.
pub open spec fn seconds_of(s: Seq<u8>) -> Option<u64> {
    match u64_of(s) {
        Some(n) => Some(n),
        None => if s.len() > 0 && s.last() == 115 {
            u64_of(s.drop_last())
        } else {
            None
        },
    }
}

proof fn lemma_digits_nonneg(s: Seq<u8>)
    requires
        forall|i: int| 0 <= i < s.len() ==> is_digit(s[i]),
    ensures
        digits_value(s) >= 0,
    decreases s.len(),
{
    if s.len() > 0 {
        lemma_digits_nonneg(s.drop_last());
    }
}

/// A longer string of digits is worth at least as much as its prefix.
proof fn lemma_digits_prefix(s: Seq<u8>, i: int)
    requires
        0 <= i <= s.len(),
        forall|k: int| 0 <= k < s.len() ==> is_digit(s[k]),
    ensures
        digits_value(s.take(i)) <= digits_value(s),
    decreases s.len() - i,
{
    if i < s.len() {
        lemma_digits_prefix(s, i + 1);
        let t = s.take(i + 1);
        assert(t.drop_last() =~= s.take(i));
        lemma_digits_nonneg(s.take(i));
    } else {
        assert(s.take(i) =~= s);
    }
}

/// Reads the decimal digits of `b` from index `from` up to `to`.
fn parse_digits(b: &[u8], from: usize, to: usize) -> (r: Option<u64>)
    requires
        from <= to <= b@.len(),
    ensures
        ({
            let d = b@.subrange(from as int, to as int);
            r == if d.len() > 0 && (forall|i: int| 0 <= i < d.len() ==> is_digit(d[i]))
                && digits_value(d) <= u64::MAX {
                Some(digits_value(d) as u64)
            } else {
                None::<u64>
            }
        }),
{
    let ghost d = b@.subrange(from as int, to as int);
    if from == to {
        return None;
    }
    let mut value: u64 = 0;
    let mut i: usize = from;
    while i < to
        invariant
            from <= i <= to <= b@.len(),
            d == b@.subrange(from as int, to as int),
            forall|k: int| 0 <= k < i - from ==> is_digit(d[k]),
            value == digits_value(d.take(i - from)),
        decreases to - i,
    {
        let c = b[i];
        proof {
            let t = d.take(i - from + 1);
            assert(t.drop_last() =~= d.take(i - from));
            assert(t.last() == c);
        }
        if c < 48 || c > 57 {
            return None;
        }
        let digit = (c - 48) as u64;
        match value.checked_mul(10) {
            Some(shifted) => match shifted.checked_add(digit) {
                Some(next) => {
                    value = next;
                },
                None => {
                    proof {
                        lemma_all_digits_or_none(d, i - from + 1);
                    }
                    return None;
                },
            },
            None => {
                proof {
                    lemma_digits_nonneg(d.take(i - from));
                    lemma_all_digits_or_none(d, i - from + 1);
                }
                return None;
            },
        }
        i = i + 1;
    }
    assert(d.take(i - from) =~= d);
    Some(value)
}

/// When a prefix of digits is already too large, the whole text is no
/// `u64`: either some later byte is no digit, or its value is larger still.
proof fn lemma_all_digits_or_none(d: Seq<u8>, i: int)
    requires
        0 <= i <= d.len(),
        forall|k: int| 0 <= k < i ==> is_digit(d[k]),
        digits_value(d.take(i)) > u64::MAX,
    ensures
        !((forall|k: int| 0 <= k < d.len() ==> is_digit(d[k])) && digits_value(d) <= u64::MAX),
{
    if forall|k: int| 0 <= k < d.len() ==> is_digit(d[k]) {
        lemma_digits_prefix(d, i);
    }
}

/// The number that the bytes of `b` before `to` denote.
fn parse_prefix(b: &[u8], to: usize) -> (r: Option<u64>)
    requires
        to <= b@.len(),
    ensures
        r == u64_of(b@.take(to as int)),
{
    let ghost t = b@.take(to as int);
    let from: usize = if to > 0 && b[0] == 43 {
        1
    } else {
        0
    };
    assert(number_digits(t) =~= b@.subrange(from as int, to as int));
    parse_digits(b, from, to)
}

/// The number that `s` denotes, as `u64::from_str` reads it.
pub fn parse_u64(s: &str) -> (r: Option<u64>)
    ensures
        r == u64_of(s.spec_bytes()),
{
    let b = s.as_bytes();
    assert(b@.take(b@.len() as int) =~= b@);
    parse_prefix(b, b.len())
}

/// The text is a number.
pub fn is_number(s: &str) -> (r: bool)
    ensures
        r == u64_of(s.spec_bytes()) is Some,
{
    parse_u64(s).is_some()
}

/// A duration given as text was neither a number of seconds nor such a
/// number followed by `s`.
#[derive(Clone, Copy, Debug, PartialEq, Eq, Structural)]
pub struct DurationParseError;

/// The seconds that `arg` denotes: `"123"` and `"123s"` are 123 seconds.
pub fn parse_duration(arg: &str) -> (r: Result<u64, DurationParseError>)
    ensures
        r == match seconds_of(arg.spec_bytes()) {
            Some(n) => Ok::<u64, DurationParseError>(n),
            None => Err(DurationParseError),
        },
{
    let b = arg.as_bytes();
    match parse_u64(arg) {
        Some(n) => Ok(n),
        None => {
            if b.len() > 0 && b[b.len() - 1] == 115 {
                assert(b@.take(b@.len() - 1) =~= b@.drop_last());
                match parse_prefix(b, b.len() - 1) {
                    Some(n) => Ok(n),
                    None => Err(DurationParseError),
                }
            } else {
                Err(DurationParseError)
            }
        },
    }
}

/// A whole number of seconds in nanoseconds, when that fits in 64 bits.
pub fn secs_to_nanos(secs: u64) -> (r: Option<u64>)
    ensures
        r == if secs * 1_000_000_000 <= u64::MAX {
            Some((secs * 1_000_000_000) as u64)
        } else {
            None::<u64>
        },
{
    secs.checked_mul(1_000_000_000)
}

/// The options of a run.
pub struct Arg {
    /// The number of workers.
    pub connections: u16,
    /// The per-request and connect timeout, in seconds.
    pub timeout_secs: u64,
    /// Whether the percentile table is printed.
    pub latencies: bool,
    pub method: Method,
    /// The request body, as text.
    pub body: Option<String>,
    /// A file whose contents are the request body.
    pub body_file: Option<String>,
    /// The client's TLS certificate (PEM).
    pub cert: Option<String>,
    /// The private key of the client's TLS certificate (PEM).
    pub key: Option<String>,
    /// Accept invalid certificates and host names.
    pub insecure: bool,
    /// Ask the server to close each connection.
    pub disable_keep_alive: bool,
    /// Extra headers, each `name:value`.
    pub headers: Vec<String>,
    /// A count budget.
    pub requests: Option<u64>,
    /// A time budget, in seconds.
    pub duration_secs: Option<u64>,
    /// A ceiling on requests per second.
    pub rate: Option<u16>,
    /// The target.
    pub url: Option<String>,
}

/// A rule that the options of a run break.
#[derive(Clone, Copy, Debug, PartialEq, Eq, Structural)]
pub enum ArgError {
    /// A body and a body file were both given.
    ConflictingBody,
    /// A certificate was given without its key.
    CertWithoutKey,
    /// A key was given without its certificate.
    KeyWithoutCert,
    /// Neither a number of requests nor a duration was given.
    MissingBudget,
    /// Both a number of requests and a duration were given.
    ConflictingBudget,
    /// A rate of zero was given.
    ZeroRate,
    /// No target was given.
    MissingUrl,
}

/// The first rule, in the order of the variants of `ArgError`, that the
/// options break; none when they keep them all.
pub open spec fn arg_error(a: Arg) -> Option<ArgError> {
    if a.body is Some && a.body_file is Some {
        Some(ArgError::ConflictingBody)
    } else if a.cert is Some && a.key is None {
        Some(ArgError::CertWithoutKey)
    } else if a.key is Some && a.cert is None {
        Some(ArgError::KeyWithoutCert)
    } else if a.requests is None && a.duration_secs is None {
        Some(ArgError::MissingBudget)
    } else if a.requests is Some && a.duration_secs is Some {
        Some(ArgError::ConflictingBudget)
    } else if a.rate == Some(0u16) {
        Some(ArgError::ZeroRate)
    } else if a.url is None {
        Some(ArgError::MissingUrl)
    } else {
        None
    }
}

impl Arg {
    /// Checks the rules that tie the options together.
    pub fn check(&self) -> (r: Result<(), ArgError>)
        ensures
            r == match arg_error(*self) {
                Some(e) => Err::<(), ArgError>(e),
                None => Ok(()),
            },
    {
        if self.body.is_some() && self.body_file.is_some() {
            Err(ArgError::ConflictingBody)
        } else if self.cert.is_some() && self.key.is_none() {
            Err(ArgError::CertWithoutKey)
        } else if self.key.is_some() && self.cert.is_none() {
            Err(ArgError::KeyWithoutCert)
        } else if self.requests.is_none() && self.duration_secs.is_none() {
            Err(ArgError::MissingBudget)
        } else if self.requests.is_some() && self.duration_secs.is_some() {
            Err(ArgError::ConflictingBudget)
        } else if self.rate == Some(0u16) {
            Err(ArgError::ZeroRate)
        } else if self.url.is_none() {
            Err(ArgError::MissingUrl)
        } else {
            Ok(())
        }
    }
}

} // verus!
