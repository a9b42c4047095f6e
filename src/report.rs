//! The lines printed for the ports found open.
use vstd::prelude::*;
use vstd::string::*;
use crate::cli::Cli;

verus! {

/// The character of a decimal digit.
pub open spec fn digit_char(d: nat) -> char {
    ('0' as u32 + d) as char
}

/// A number written in decimal, most significant digit first, without
/// leading zeros.
pub open spec fn decimal_text(n: nat) -> Seq<char>
    decreases n,
{
    if n < 10 {
        seq![digit_char(n)]
    } else {
        decimal_text(n / 10).push(digit_char(n % 10))
    }
}

/// The line shown for an open port: `port <n> open!` in verbose mode, the
/// bare number in greppable mode, and none otherwise.
pub open spec fn open_port_text(port: u16, verbose: bool, greppable: bool) -> Option<Seq<char>> {
    if verbose {
        Some("port "@ + decimal_text(port as nat) + " open!"@)
    } else if greppable {
        Some(decimal_text(port as nat))
    } else {
        None
    }
}

fn digit_str(d: u16) -> (r: &'static str)
    requires
        d < 10,
    ensures
        r@ == seq![digit_char(d as nat)],
{
    let r = match d {
        0 => "0",
        1 => "1",
        2 => "2",
        3 => "3",
        4 => "4",
        5 => "5",
        6 => "6",
        7 => "7",
        8 => "8",
        _ => "9",
    };
    proof {
        reveal_strlit("0");
        reveal_strlit("1");
        reveal_strlit("2");
        reveal_strlit("3");
        reveal_strlit("4");
        reveal_strlit("5");
        reveal_strlit("6");
        reveal_strlit("7");
        reveal_strlit("8");
        reveal_strlit("9");
    }
    assert(r@ =~= seq![digit_char(d as nat)]);
    r
}

fn push_decimal(out: &mut String, n: u16)
    ensures
        final(out)@ == old(out)@ + decimal_text(n as nat),
    decreases n,
{
    if n >= 10 {
        push_decimal(out, n / 10);
    }
    out.append(digit_str(n % 10));
    assert(out@ =~= old(out)@ + decimal_text(n as nat));
}

/// A number written in decimal.
pub fn decimal_string(n: u16) -> (r: String)
    ensures
        r@ == decimal_text(n as nat),
{
    let mut s = String::new();
    push_decimal(&mut s, n);
    assert(s@ =~= decimal_text(n as nat));
    s
}

/// The line to print when `port` is found open under the configuration
/// `cli`, if any. Verbose output takes precedence where both modes are set.
pub fn open_port_line(port: u16, cli: &Cli) -> (r: Option<String>)
    ensures
        match open_port_text(port, cli.verbose, cli.greppable) {
            None => r is None,
            Some(t) => r is Some && r->Some_0@ == t,
        },
{
    if cli.verbose {
        let mut s = String::from_str("port ");
        let d = decimal_string(port);
        s.append(d.as_str());
        s.append(" open!");
        Some(s)
    } else if cli.greppable {
        Some(decimal_string(port))
    } else {
        None
    }
}

} // verus!
