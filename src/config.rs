use vstd::prelude::*;
use vstd::utf8::encode_utf8;

verus! {

/// Requests each connection sends between two checks of the stop signal.
pub const DEFAULT_BATCH_SIZE: u32 = 128;

pub open spec fn is_digit(b: u8) -> bool {
    48 <= b <= 57
}

pub open spec fn all_digits(s: Seq<u8>) -> bool {
    forall|i: int| 0 <= i < s.len() ==> is_digit(#[trigger] s[i])
}

/// Value of a string of decimal digits.
pub open spec fn digits_value(s: Seq<u8>) -> nat
    decreases s.len(),
{
    if s.len() == 0 {
        0
    } else {
        digits_value(s.drop_last()) * 10 + (s.last() - 48) as nat
    }
}

/// The digits of an unsigned number: a leading `+` is allowed.
pub open spec fn unsigned_digits(s: Seq<u8>) -> Seq<u8> {
    if s.len() > 0 && s[0] == 43 { s.drop_first() } else { s }
}

/// The `u64` that the text `s` writes in decimal, if any.
pub open spec fn decimal_u64(s: Seq<u8>) -> Option<u64> {
    let d = unsigned_digits(s);
    if d.len() > 0 && all_digits(d) && digits_value(d) <= u64::MAX {
        Some(digits_value(d) as u64)
    } else {
        None
    }
}

proof fn lemma_digits_value_grows(s: Seq<u8>, k: int)
    requires
        0 <= k <= s.len(),
        all_digits(s),
    ensures
        digits_value(s.subrange(0, k)) <= digits_value(s),
    decreases s.len() - k,
{
    if k < s.len() {
        lemma_digits_value_grows(s, k + 1);
        assert(s.subrange(0, k + 1).drop_last() =~= s.subrange(0, k));
    } else {
        assert(s.subrange(0, k) =~= s);
    }
}

/// Reads an unsigned decimal number, as `str::parse::<u64>` does: an
/// optional `+`, then one or more digits, with a value that fits.
pub fn parse_u64(text: &str) -> (r: Option<u64>)
    ensures
        r == decimal_u64(encode_utf8(text@)),
{
    let bytes = text.as_bytes();
    assert(bytes@ == encode_utf8(text@));
    let n = bytes.len();
    let start: usize = if n > 0 && bytes[0] == 43 { 1 } else { 0 };
    let ghost d = unsigned_digits(bytes@);
    assert(d =~= bytes@.subrange(start as int, n as int));
    if start == n {
        return None;
    }
    let mut value: u64 = 0;
    let mut i: usize = start;
    while i < n
        invariant
            start <= i <= n,
            n == bytes@.len(),
            d == bytes@.subrange(start as int, n as int),
            d == unsigned_digits(bytes@),
            bytes@ == encode_utf8(text@),
            all_digits(d.subrange(0, i - start)),
            value == digits_value(d.subrange(0, i - start)),
        decreases n - i,
    {
        let b = bytes[i];
        assert(d[i - start] == b);
        let ghost pre = d.subrange(0, i - start);
        let ghost next = d.subrange(0, i + 1 - start);
        assert(next.drop_last() =~= pre);
        assert(next[i - start] == b);
        if b < 48 || b > 57 {
            assert(!is_digit(d[i - start]));
            assert(!all_digits(d));
            return None;
        }
        let digit = (b - 48) as u64;
        if value > (u64::MAX - digit) / 10 {
            proof {
                assert(digits_value(next) > u64::MAX) by (nonlinear_arith)
                    requires
                        value > (u64::MAX - digit) / 10,
                        digits_value(next) == value * 10 + digit,
                        digit <= 9,
                ;
                if all_digits(d) {
                    lemma_digits_value_grows(d, i + 1 - start);
                    assert(digits_value(d) > u64::MAX);
                }
            }
            return None;
        }
        value = value * 10 + digit;
        i = i + 1;
        assert forall|j: int| 0 <= j < next.len() implies is_digit(#[trigger] next[j]) by {
            if j < pre.len() {
                assert(next[j] == pre[j]);
            }
        }
    }
    assert(d.subrange(0, n - start) =~= d);
    Some(value)
}

/// Why the command line was refused.
#[derive(PartialEq, Eq, Structural, Clone, Copy, Debug)]
pub enum ConfigError {
    /// Fewer than the three positional arguments.
    MissingArguments,
    /// The duration is not an unsigned number of seconds.
    InvalidDuration,
    /// The connection count is not a positive number.
    InvalidConnectionCount,
}

impl ConfigError {
    /// One line for the error stream.
    pub fn message(&self) -> (r: &'static str) {
        match self {
            ConfigError::MissingArguments => "missing arguments",
            ConfigError::InvalidDuration => "Invalid duration",
            ConfigError::InvalidConnectionCount => "Invalid connection count",
        }
    }
}

/// What a benchmark run is asked to do; fixed once it starts.
#[derive(Clone, Debug)]
pub struct BenchmarkConfig {
    /// `host:port` of the target.
    pub target: String,
    pub duration_secs: u64,
    /// Virtual users over all workers.
    pub connections: usize,
    /// Requests between two stop checks.
    pub batch_size: u32,
}

impl BenchmarkConfig {
    pub open spec fn wf(&self) -> bool {
        self.connections >= 1 && self.batch_size >= 1
    }
}

/// The connection count that the text `s` gives, if it is a positive number
/// that fits in `usize`.
pub open spec fn connection_count(s: Seq<u8>) -> Option<usize> {
    match decimal_u64(s) {
        Some(v) => if 1 <= v <= usize::MAX { Some(v as usize) } else { None },
        None => None,
    }
}

/// Reads `<program> <host:port> <duration_secs> <connections>`; further
/// arguments are ignored.
pub fn parse_args(args: &Vec<String>) -> (r: Result<BenchmarkConfig, ConfigError>)
    ensures
        args@.len() < 4 ==> r == Err::<BenchmarkConfig, ConfigError>(ConfigError::MissingArguments),
        args@.len() >= 4 ==> match decimal_u64(encode_utf8(args@[2]@)) {
            None => r == Err::<BenchmarkConfig, ConfigError>(ConfigError::InvalidDuration),
            Some(secs) => match connection_count(encode_utf8(args@[3]@)) {
                None => r == Err::<BenchmarkConfig, ConfigError>(ConfigError::InvalidConnectionCount),
                Some(c) => r matches Ok(cfg) && cfg.target@ == args@[1]@ && cfg.duration_secs == secs
                    && cfg.connections == c && cfg.batch_size == DEFAULT_BATCH_SIZE && cfg.wf(),
            },
        },
{
    if args.len() < 4 {
        return Err(ConfigError::MissingArguments);
    }
    let duration_secs = match parse_u64(args[2].as_str()) {
        Some(v) => v,
        None => return Err(ConfigError::InvalidDuration),
    };
    let connections = match parse_u64(args[3].as_str()) {
        Some(v) => {
            if v == 0 || v > usize::MAX as u64 {
                return Err(ConfigError::InvalidConnectionCount);
            }
            v as usize
        },
        None => return Err(ConfigError::InvalidConnectionCount),
    };
    Ok(BenchmarkConfig {
        target: args[1].clone(),
        duration_secs,
        connections,
        batch_size: DEFAULT_BATCH_SIZE,
    })
}

} // verus!
