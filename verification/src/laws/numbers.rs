//! Numbers in texts can be read back.

use vstd::prelude::*;

use crate::instance::counted;
use crate::text::{decimal, digit, host_port};

verus! {

/// Whether these are decimal digits, at least one.
pub open spec fn is_number(s: Seq<char>) -> bool {
    s.len() > 0 && forall|i: int| 0 <= i < s.len() ==> '0' <= #[trigger] s[i] <= '9'
}

/// The number that decimal digits stand for, most significant first.
pub open spec fn number_value(s: Seq<char>) -> int
    decreases s.len(),
{
    if s.len() == 0 {
        0
    } else {
        10 * number_value(s.drop_last()) + (s.last() as u32 - '0' as u32)
    }
}

/// A number is written in digits that stand for it, without leading zeros.
pub proof fn law_decimal_is_read_back(n: nat)
    ensures
        is_number(decimal(n)),
        number_value(decimal(n)) == n,
        decimal(n).len() > 1 ==> decimal(n)[0] != '0',
    decreases n,
{
    let d = digit(n);
    assert(d as u32 == '0' as u32 + n % 10);
    if n < 10 {
        assert(decimal(n).drop_last() =~= Seq::empty());
        assert(number_value(Seq::empty()) == 0);
        assert(decimal(n).last() == d);
    } else {
        law_decimal_is_read_back(n / 10);
        let front = decimal(n / 10);
        assert(decimal(n).drop_last() =~= front);
        assert(decimal(n).last() == d);
        assert(decimal(n)[0] == front[0]);
        if front.len() == 1 {
            assert(front.drop_last() =~= Seq::empty());
            assert(number_value(front.drop_last()) == 0);
            assert(front.last() == front[0]);
        }
    }
}

/// The query for a name and a port begins with the whole name; behind a colon stand
/// the digits of the port, and nothing else.
pub proof fn law_host_port_is_read_back(host: Seq<char>, port: u16)
    ensures
        host_port(host, port).len() > host.len() + 1,
        host_port(host, port).take(host.len() as int) == host,
        host_port(host, port)[host.len() as int] == ':',
        is_number(host_port(host, port).skip(host.len() + 1int)),
        number_value(host_port(host, port).skip(host.len() + 1int)) == port,
{
    law_decimal_is_read_back(port as nat);
    let h = host_port(host, port);
    assert(h.take(host.len() as int) =~= host);
    assert(h.skip(host.len() + 1int) =~= decimal(port as nat));
}

/// Different places have different queries.
pub proof fn law_host_port_tells_places_apart(
    host: Seq<char>,
    port: u16,
    other_host: Seq<char>,
    other_port: u16,
)
    requires
        host_port(host, port) == host_port(other_host, other_port),
    ensures
        host == other_host,
        port == other_port,
{
    let h = host_port(host, port);
    law_host_port_is_read_back(host, port);
    law_host_port_is_read_back(other_host, other_port);
    if host.len() < other_host.len() {
        let tail = h.skip(host.len() + 1int);
        assert(tail[other_host.len() - host.len() - 1] == ':');
    }
    if other_host.len() < host.len() {
        let tail = h.skip(other_host.len() + 1int);
        assert(tail[host.len() - other_host.len() - 1] == ':');
    }
}

/// Counters and identifiers go up by one, round the range of a `usize`.
pub proof fn law_counted_goes_round(n: usize)
    ensures
        counted(n) as int == (n + 1) % (usize::MAX + 1),
{
    if n < usize::MAX {
        assert((n + 1) % (usize::MAX + 1) == n + 1) by (nonlinear_arith)
            requires
                0 <= n < usize::MAX,
        ;
    } else {
        assert((n + 1) % (usize::MAX + 1) == 0) by (nonlinear_arith)
            requires
                n == usize::MAX,
        ;
    }
}

} // verus!
