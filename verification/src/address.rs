//! The address that the listener is bound to, and the line that announces it.

use vstd::prelude::*;
use vstd::string::*;
use crate::config::Config;

verus! {

/// The decimal digit for a number below ten.
pub open spec fn digit(d: nat) -> char {
    if d == 0 {
        '0'
    } else if d == 1 {
        '1'
    } else if d == 2 {
        '2'
    } else if d == 3 {
        '3'
    } else if d == 4 {
        '4'
    } else if d == 5 {
        '5'
    } else if d == 6 {
        '6'
    } else if d == 7 {
        '7'
    } else if d == 8 {
        '8'
    } else {
        '9'
    }
}

/// A number in decimal, without leading zeros.
pub open spec fn decimal(n: nat) -> Seq<char>
    decreases n,
{
    if n < 10 {
        seq![digit(n)]
    } else {
        decimal(n / 10).push(digit(n % 10))
    }
}

/// The loopback address with a colon behind it: `127.0.0.1:`.
pub open spec fn loopback_prefix() -> Seq<char> {
    seq!['1', '2', '7', '.', '0', '.', '0', '.', '1', ':']
}

/// The words that the startup line begins with: `listening on `.
pub open spec fn announcement_prefix() -> Seq<char> {
    seq!['l', 'i', 's', 't', 'e', 'n', 'i', 'n', 'g', ' ', 'o', 'n', ' ']
}

/// The address of the listener for a port: the loopback interface only.
pub open spec fn address_of(port: u16) -> Seq<char> {
    loopback_prefix() + decimal(port as nat)
}

/// One decimal digit as a string.
fn digit_str(d: u16) -> (s: &'static str)
    requires
        d < 10,
    ensures
        s@ == seq![digit(d as nat)],
{
    proof {
        reveal_strlit("0");
        reveal_strlit("1");
        reveal_strlit("2");
        reveal_strlit("3");
        reveal_strlit("4");
        reveal_strlit("5");
        reveal_strlit("6");
        reveal_strlit("7");
        reveal_strlit("8");
        reveal_strlit("9");
    }
    let s = if d == 0 {
        "0"
    } else if d == 1 {
        "1"
    } else if d == 2 {
        "2"
    } else if d == 3 {
        "3"
    } else if d == 4 {
        "4"
    } else if d == 5 {
        "5"
    } else if d == 6 {
        "6"
    } else if d == 7 {
        "7"
    } else if d == 8 {
        "8"
    } else {
        "9"
    };
    assert(s@ =~= seq![digit(d as nat)]);
    s
}

/// Writes `n` in decimal behind what `out` holds.
fn push_decimal(out: &mut String, n: u16)
    ensures
        final(out)@ == old(out)@ + decimal(n as nat),
    decreases n,
{
    if n >= 10 {
        push_decimal(out, n / 10);
    }
    let ghost before = out@;
    out.append(digit_str(n % 10));
    proof {
        if n >= 10 {
            assert(out@ =~= old(out)@ + decimal((n / 10) as nat).push(digit((n % 10) as nat)));
        } else {
            assert(out@ =~= old(out)@ + seq![digit(n as nat)]);
        }
    }
}

/// The address that the listener is bound to: `127.0.0.1`, a colon, and the
/// configured port in decimal.
pub fn listen_addr(config: &Config) -> (addr: String)
    ensures
        addr@ == address_of(config.port),
{
    proof {
        reveal_strlit("127.0.0.1:");
    }
    let mut addr = String::from_str("127.0.0.1:");
    assert(addr@ =~= loopback_prefix());
    push_decimal(&mut addr, config.port);
    addr
}

/// The line that is logged once the listener is bound: `listening on `, then
/// the address.
pub fn startup_line(config: &Config) -> (line: String)
    ensures
        line@ == announcement_prefix() + address_of(config.port),
{
    proof {
        reveal_strlit("listening on ");
    }
    let mut line = String::from_str("listening on ");
    assert(line@ =~= announcement_prefix());
    let addr = listen_addr(config);
    line.append(addr.as_str());
    line
}

} // verus!
