//! Numbers as text.

use vstd::prelude::*;

verus! {

pub open spec fn digit(n: nat) -> char {
    ('0' as u32 + n % 10) as char
}

/// A number in decimal.
pub open spec fn decimal(n: nat) -> Seq<char>
    decreases n,
{
    if n < 10 {
        seq![digit(n)]
    } else {
        decimal(n / 10).push(digit(n))
    }
}

/// The digit of a number below ten.
fn digit_text(n: usize) -> (r: &'static str)
    requires
        n < 10,
    ensures
        r@ == seq![digit(n as nat)],
{
    proof {
        reveal_strlit("0");
        reveal_strlit("1");
        reveal_strlit("2");
        reveal_strlit("3");
        reveal_strlit("4");
        reveal_strlit("5");
        reveal_strlit("6");
        reveal_strlit("7");
        reveal_strlit("8");
        reveal_strlit("9");
    }
    let r: &'static str = match n {
        0 => "0",
        1 => "1",
        2 => "2",
        3 => "3",
        4 => "4",
        5 => "5",
        6 => "6",
        7 => "7",
        8 => "8",
        _ => "9",
    };
    assert(r@ =~= seq![digit(n as nat)]);
    r
}

/// A number in decimal.
pub(crate) fn number_text(n: usize) -> (r: String)
    ensures
        r@ == decimal(n as nat),
    decreases n,
{
    if n < 10 {
        digit_text(n).to_owned()
    } else {
        let mut text = number_text(n / 10);
        text.append(digit_text(n % 10));
        proof {
            assert(digit((n % 10) as nat) == digit(n as nat));
            assert(text@ =~= decimal(n as nat));
        }
        text
    }
}

/// A name and a port with a colon between them.
pub open spec fn host_port(host: Seq<char>, port: u16) -> Seq<char> {
    host + seq![':'] + decimal(port as nat)
}

/// A name and a port with a colon between them.
pub(crate) fn host_and_port(host: &String, port: u16) -> (r: String)
    ensures
        r@ == host_port(host@, port),
{
    let mut text = host.clone();
    text.append(":");
    text.append(number_text(port as usize).as_str());
    proof {
        reveal_strlit(":");
        assert(":"@ =~= seq![':']);
    }
    text
}

} // verus!
