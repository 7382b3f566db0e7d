//! Textual connection target for the control connection: `host:port`, with
//! a literal IPv6 host bracketed. Produced as ASCII bytes; the caller
//! renders the host and turns the result into the string it dials.

use vstd::prelude::*;

verus! {

/// Decimal digits of `n`, most significant first; empty for zero.
pub open spec fn dec_bytes(n: int) -> Seq<u8>
    decreases n,
{
    if n <= 0 {
        Seq::empty()
    } else {
        dec_bytes(n / 10).push((48 + n % 10) as u8)
    }
}

/// Decimal rendering of a port number: `0` is written as one digit.
pub open spec fn port_bytes(n: int) -> Seq<u8> {
    if n == 0 {
        seq![48u8]
    } else {
        dec_bytes(n)
    }
}

/// `host:port`, with the host wrapped in square brackets when it is a
/// literal IPv6 address.
pub open spec fn target_bytes(host: Seq<u8>, ipv6: bool, port: int) -> Seq<u8> {
    (if ipv6 {
        seq![91u8] + host + seq![93u8]
    } else {
        host
    }) + seq![58u8] + port_bytes(port)
}

/// Appends the decimal rendering of `port`.
fn push_port(out: &mut Vec<u8>, port: u16)
    ensures
        final(out)@ == old(out)@ + port_bytes(port as int),
{
    if port == 0 {
        out.push(48);
        assert(final(out)@ =~= old(out)@ + port_bytes(port as int));
        return ;
    }
    let mut digits: Vec<u8> = Vec::new();
    let mut n = port;
    while n > 0
        invariant
            dec_bytes(port as int) == dec_bytes(n as int) + digits@,
        decreases n,
    {
        let ghost pre = digits@;
        let d: u8 = 48 + (n % 10) as u8;
        digits.insert(0, d);
        proof {
            assert(digits@ =~= seq![d] + pre);
        }
        let n0 = n;
        n = n / 10;
        proof {
            assert(dec_bytes(n0 as int) == dec_bytes(n as int).push(d));
            assert(dec_bytes(n as int) + (seq![d] + pre) =~= (dec_bytes(n as int).push(d)) + pre);
        }
    }
    proof {
        assert(dec_bytes(0int) + digits@ =~= digits@);
    }
    let mut i: usize = 0;
    let base = Ghost(out@);
    while i < digits.len()
        invariant
            i <= digits@.len(),
            out@ == base@ + digits@.subrange(0, i as int),
        decreases digits@.len() - i,
    {
        out.push(digits[i]);
        proof {
            assert(base@ + digits@.subrange(0, i as int) + seq![digits@[i as int]] =~= base@
                + digits@.subrange(0, i + 1));
        }
        i = i + 1;
    }
    proof {
        assert(digits@.subrange(0, digits@.len() as int) =~= digits@);
    }
}

/// The connection target the initiator dials: the host's textual form and
/// the port, with a literal IPv6 host bracketed.
pub fn connection_target(host: &[u8], ipv6: bool, port: u16) -> (r: Vec<u8>)
    ensures
        r@ == target_bytes(host@, ipv6, port as int),
{
    let mut out: Vec<u8> = Vec::new();
    if ipv6 {
        out.push(91);
    }
    let mut i: usize = 0;
    let head = Ghost(out@);
    while i < host.len()
        invariant
            i <= host@.len(),
            out@ == head@ + host@.subrange(0, i as int),
        decreases host@.len() - i,
    {
        out.push(host[i]);
        proof {
            assert(head@ + host@.subrange(0, i as int) + seq![host@[i as int]] =~= head@
                + host@.subrange(0, i + 1));
        }
        i = i + 1;
    }
    proof {
        assert(host@.subrange(0, host@.len() as int) =~= host@);
    }
    if ipv6 {
        out.push(93);
    }
    out.push(58);
    proof {
        if ipv6 {
            assert(out@ =~= (seq![91u8] + host@ + seq![93u8]) + seq![58u8]);
        } else {
            assert(out@ =~= host@ + seq![58u8]);
        }
    }
    push_port(&mut out, port);
    proof {
        assert(out@ =~= target_bytes(host@, ipv6, port as int));
    }
    out
}

} // verus!
