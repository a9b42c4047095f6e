//! Scan configuration and the parsing of port ranges such as `1-1000`.
use vstd::prelude::*;
use vstd::string::*;
use crate::port_scanner::HostAddr;

verus! {

/// Smallest port that can be scanned.
pub const PORT_MIN: u16 = 1;

/// Largest port that can be scanned.
pub const PORT_MAX: u16 = 65535;

/// What a scan is asked to do: the host, the ports, and how to report.
#[derive(Debug, Clone, Copy)]
pub struct Cli {
    /// Address to scan.
    pub addr: HostAddr,
    /// First and last port of the range to scan, both included; every port
    /// when absent.
    pub ports: Option<(u16, u16)>,
    /// Scan the well-known ports instead of a range.
    pub common_ports: bool,
    /// Print each open port as it is found.
    pub verbose: bool,
    /// Probe the ports in the given order instead of a random one.
    pub sequential: bool,
    /// Print only the numbers of the open ports.
    pub greppable: bool,
}

/// Why a scan configuration was rejected.
#[derive(Debug, Clone, Copy, PartialEq, Eq, Structural)]
pub enum ConfigError {
    /// Both verbose and greppable output were asked for.
    VerboseAndGreppable,
    /// Both a port range and the well-known ports were asked for.
    RangeAndCommonPorts,
    /// The port range is not valid.
    BadRange(PortRangeError),
}

/// The range that a configuration scans: the one it names, else every port.
pub open spec fn range_of(ports: Option<(u16, u16)>) -> (u16, u16) {
    match ports {
        Some(p) => p,
        None => (PORT_MIN, PORT_MAX),
    }
}

/// Whether a configuration may start a scan, and if not, why.
pub open spec fn config_check(c: Cli) -> Result<(), ConfigError> {
    if c.verbose && c.greppable {
        Err(ConfigError::VerboseAndGreppable)
    } else if c.common_ports && c.ports is Some {
        Err(ConfigError::RangeAndCommonPorts)
    } else if !is_port(range_of(c.ports).0 as nat) || !is_port(range_of(c.ports).1 as nat) {
        Err(ConfigError::BadRange(PortRangeError::OutOfRange))
    } else if range_of(c.ports).0 > range_of(c.ports).1 {
        Err(ConfigError::BadRange(PortRangeError::Reversed))
    } else {
        Ok(())
    }
}

impl Cli {
    /// The range to scan: the one given, else every port from 1 to 65535.
    pub fn get_ports(&self) -> (r: (u16, u16))
        ensures
            r == range_of(self.ports),
    {
        match self.ports {
            Some(p) => p,
            None => (PORT_MIN, PORT_MAX),
        }
    }

    /// Checks that the settings agree with one another and that the range
    /// is valid, before any port is probed.
    pub fn validate(&self) -> (r: Result<(), ConfigError>)
        ensures
            r == config_check(*self),
    {
        let (start, end) = self.get_ports();
        if self.verbose && self.greppable {
            Err(ConfigError::VerboseAndGreppable)
        } else if self.common_ports && self.ports.is_some() {
            Err(ConfigError::RangeAndCommonPorts)
        } else if start < PORT_MIN || end < PORT_MIN {
            Err(ConfigError::BadRange(PortRangeError::OutOfRange))
        } else if start > end {
            Err(ConfigError::BadRange(PortRangeError::Reversed))
        } else {
            Ok(())
        }
    }
}

/// An ASCII decimal digit.
pub open spec fn is_digit(c: char) -> bool {
    '0' <= c && c <= '9'
}

/// The value of one decimal digit.
pub open spec fn digit_value(c: char) -> nat {
    (c as u32 - '0' as u32) as nat
}

/// The value of a string of decimal digits, most significant first.
pub open spec fn digits_value(s: Seq<char>) -> nat
    decreases s.len(),
{
    if s.len() == 0 {
        0
    } else {
        digits_value(s.drop_last()) * 10 + digit_value(s.last())
    }
}

/// A string of one or more decimal digits and nothing else, with its value.
pub open spec fn digit_string(s: Seq<char>) -> Option<nat> {
    if s.len() > 0 && forall|i: int| 0 <= i < s.len() ==> is_digit(#[trigger] s[i]) {
        Some(digits_value(s))
    } else {
        None
    }
}

/// The digits of a number, after an optional leading `+`.
pub open spec fn unsigned_part(s: Seq<char>) -> Seq<char> {
    if s.len() > 0 && s[0] == '+' {
        s.drop_first()
    } else {
        s
    }
}

/// An unsigned decimal number: an optional `+`, then one or more digits and
/// nothing else.
pub open spec fn decimal(s: Seq<char>) -> Option<nat> {
    digit_string(unsigned_part(s))
}

/// Whether `n` names a port that can be scanned.
pub open spec fn is_port(n: nat) -> bool {
    PORT_MIN <= n && n <= PORT_MAX
}

/// Why a port range was rejected.
#[derive(Debug, Clone, Copy, PartialEq, Eq, Structural)]
pub enum PortRangeError {
    /// No `-` separates the two ends.
    MissingHyphen,
    /// An end is not a decimal number.
    NotANumber,
    /// The end comes before the start.
    Reversed,
    /// An end lies outside the ports that can be scanned.
    OutOfRange,
}

/// Index of the first `-` in `s`, if any.
pub open spec fn first_hyphen(s: Seq<char>) -> Option<int> {
    if exists|i: int| 0 <= i < s.len() && s[i] == '-' {
        Some(choose|i: int| 0 <= i < s.len() && s[i] == '-' && forall|j: int| 0 <= j < i ==> s[j] != '-')
    } else {
        None
    }
}

/// What a range written `start-end` denotes: the first `-` splits it, both
/// ends are decimal numbers, both are ports, and the start is not above the end.
pub open spec fn port_range_of(s: Seq<char>) -> Result<(u16, u16), PortRangeError> {
    match first_hyphen(s) {
        None => Err(PortRangeError::MissingHyphen),
        Some(h) => {
            let a = decimal(s.subrange(0, h));
            let b = decimal(s.subrange(h + 1, s.len() as int));
            if a is None || b is None {
                Err(PortRangeError::NotANumber)
            } else if !is_port(a->Some_0) || !is_port(b->Some_0) {
                Err(PortRangeError::OutOfRange)
            } else if a->Some_0 > b->Some_0 {
                Err(PortRangeError::Reversed)
            } else {
                Ok((a->Some_0 as u16, b->Some_0 as u16))
            }
        }
    }
}

/// The text shown for each range error.
pub open spec fn range_error_text(e: PortRangeError) -> Seq<char> {
    match e {
        PortRangeError::MissingHyphen => "port range missing hyphen, must be in start-end format, Ex: 1-16"@,
        PortRangeError::NotANumber => "port range ends must be decimal numbers, Ex: 1-16"@,
        PortRangeError::Reversed => "ending port number range should be higher than the starting number"@,
        PortRangeError::OutOfRange => "port not in range 1-65535"@,
    }
}

impl PortRangeError {
    /// A message that describes the error.
    pub fn message(&self) -> (r: String)
        ensures
            r@ == range_error_text(*self),
    {
        match self {
            PortRangeError::MissingHyphen => String::from_str(
                "port range missing hyphen, must be in start-end format, Ex: 1-16",
            ),
            PortRangeError::NotANumber => String::from_str(
                "port range ends must be decimal numbers, Ex: 1-16",
            ),
            PortRangeError::Reversed => String::from_str(
                "ending port number range should be higher than the starting number",
            ),
            PortRangeError::OutOfRange => String::from_str("port not in range 1-65535"),
        }
    }
}

/// The number that the digits `s[from..to]` write, capped at 65536.
fn parse_digits_capped(s: &str, from: usize, to: usize) -> (r: Option<u32>)
    requires
        from <= to <= s@.len(),
    ensures
        match digit_string(s@.subrange(from as int, to as int)) {
            None => r is None,
            Some(v) => r == Some(if v > 65536 { 65536u32 } else { v as u32 }),
        },
{
    let ghost t = s@.subrange(from as int, to as int);
    if from == to {
        return None;
    }
    let mut acc: u32 = 0;
    let mut i: usize = from;
    while i < to
        invariant
            from <= i <= to <= s@.len(),
            t == s@.subrange(from as int, to as int),
            forall|j: int| from <= j < i ==> is_digit(#[trigger] s@[j]),
            acc == if digits_value(s@.subrange(from as int, i as int)) > 65536 {
                65536
            } else {
                digits_value(s@.subrange(from as int, i as int))
            },
        decreases to - i,
    {
        let c = s.get_char(i);
        if !('0' <= c && c <= '9') {
            assert(t[i - from] == c);
            return None;
        }
        let ghost prev = s@.subrange(from as int, i as int);
        let ghost next = s@.subrange(from as int, i + 1);
        assert(next.drop_last() =~= prev);
        let d: u32 = (c as u32) - ('0' as u32);
        if acc < 65536 {
            let v: u32 = acc * 10 + d;
            acc = if v > 65536 { 65536 } else { v };
        }
        i = i + 1;
    }
    assert(s@.subrange(from as int, to as int) =~= t);
    assert(forall|j: int| 0 <= j < t.len() ==> is_digit(#[trigger] t[j])) by {
        assert forall|j: int| 0 <= j < t.len() implies is_digit(#[trigger] t[j]) by {
            assert(t[j] == s@[from + j]);
        }
    }
    Some(acc)
}

/// The unsigned decimal number written in `s[from..to]`, capped at 65536 so
/// that it stays small while telling every port apart from every larger number.
pub fn parse_decimal_capped(s: &str, from: usize, to: usize) -> (r: Option<u32>)
    requires
        from <= to <= s@.len(),
    ensures
        match decimal(s@.subrange(from as int, to as int)) {
            None => r is None,
            Some(v) => r == Some(if v > 65536 { 65536u32 } else { v as u32 }),
        },
{
    let ghost t = s@.subrange(from as int, to as int);
    if from < to && s.get_char(from) == '+' {
        assert(t[0] == '+');
        assert(t.drop_first() =~= s@.subrange(from + 1, to as int));
        parse_digits_capped(s, from + 1, to)
    } else {
        assert(from < to ==> t[0] == s@[from as int]);
        parse_digits_capped(s, from, to)
    }
}

/// Index of the first `-` in `s`, found by a scan from the left.
fn find_hyphen(s: &str) -> (r: Option<usize>)
    ensures
        match first_hyphen(s@) {
            None => r is None,
            Some(h) => r is Some && r->Some_0 == h,
        },
        r is Some ==> r->Some_0 < s@.len(),
{
    let n = s.unicode_len();
    let mut i: usize = 0;
    while i < n
        invariant
            n == s@.len(),
            i <= n,
            forall|j: int| 0 <= j < i ==> s@[j] != '-',
        decreases n - i,
    {
        if s.get_char(i) == '-' {
            let ghost h = first_hyphen(s@)->Some_0;
            assert(s@[i as int] == '-');
            assert(h == i) by {
                if h < i {
                } else if h > i {
                }
            }
            return Some(i);
        }
        i = i + 1;
    }
    None
}

/// Parses a range written `start-end`, such as `1-1000`.
pub fn parse_port_range(s: &str) -> (r: Result<(u16, u16), PortRangeError>)
    ensures
        r == port_range_of(s@),
{
    let n = s.unicode_len();
    let h = match find_hyphen(s) {
        None => {
            return Err(PortRangeError::MissingHyphen);
        },
        Some(h) => h,
    };
    let a = parse_decimal_capped(s, 0, h);
    let b = parse_decimal_capped(s, h + 1, n);
    match (a, b) {
        (Some(a), Some(b)) => {
            if a < PORT_MIN as u32 || a > PORT_MAX as u32 || b < PORT_MIN as u32 || b
                > PORT_MAX as u32 {
                Err(PortRangeError::OutOfRange)
            } else if a > b {
                Err(PortRangeError::Reversed)
            } else {
                Ok((a as u16, b as u16))
            }
        },
        _ => Err(PortRangeError::NotANumber),
    }
}

/// Reads a range written `start-end` for the command line, where a rejected
/// range is reported by its message.
pub fn port_in_range(s: &str) -> (r: Result<(u16, u16), String>)
    ensures
        match port_range_of(s@) {
            Ok(p) => r == Ok::<(u16, u16), String>(p),
            Err(e) => r is Err && r->Err_0@ == range_error_text(e),
        },
{
    match parse_port_range(s) {
        Ok(p) => Ok(p),
        Err(e) => Err(e.message()),
    }
}

} // verus!
