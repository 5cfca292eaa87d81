//! The receiver's identity line: which of this PC's IPv4 addresses are worth
//! showing, how they read, and the computer's name.  Resolving the name and
//! probing the outbound interface are the application's job.

use vstd::prelude::*;

use crate::addr::{IpAddr, is_loopback, is_v4_link_local, usable_lan_ipv4};
use crate::text::{chars_of, decimal, extend_chars, push_decimal, string_from_chars, trim_chars, trimmed};

verus! {

/// A LAN address worth showing: not loopback, not self-assigned, not
/// unspecified.
pub open spec fn usable(x: u32) -> bool {
    !is_loopback(IpAddr::V4(x)) && !is_v4_link_local(x) && x != 0
}

/// The usable addresses of `s`, each once, in first-seen order.
pub open spec fn usable_once(s: Seq<u32>) -> Seq<u32>
    decreases s.len(),
{
    if s.len() == 0 {
        s
    } else {
        let r = usable_once(s.drop_last());
        if usable(s.last()) && !r.contains(s.last()) {
            r.push(s.last())
        } else {
            r
        }
    }
}

/// The addresses to show: the usable resolved ones; only when there are none,
/// the outbound interface's address, if usable.
pub open spec fn lan_list(resolved: Seq<u32>, fallback: Option<u32>) -> Seq<u32> {
    let r = usable_once(resolved);
    if r.len() > 0 {
        r
    } else {
        match fallback {
            Some(v) => if usable(v) { seq![v] } else { Seq::empty() },
            None => Seq::empty(),
        }
    }
}

fn holds(v: &Vec<u32>, x: u32) -> (b: bool)
    ensures
        b == v@.contains(x),
{
    let mut i: usize = 0;
    while i < v.len()
        invariant
            i <= v@.len(),
            forall|j: int| 0 <= j < i ==> v@[j] != x,
        decreases v@.len() - i,
    {
        if v[i] == x {
            assert(v@[i as int] == x);
            return true;
        }
        i += 1;
    }
    false
}

/// This PC's LAN IPv4 addresses to show, from what its own name resolved to
/// and, as a fallback, the outbound interface's address.
pub fn lan_ipv4s(resolved: &[u32], fallback: Option<u32>) -> (v: Vec<u32>)
    ensures
        v@ == lan_list(resolved@, fallback),
{
    let mut out: Vec<u32> = Vec::new();
    let mut i: usize = 0;
    while i < resolved.len()
        invariant
            i <= resolved@.len(),
            out@ == usable_once(resolved@.subrange(0, i as int)),
        decreases resolved@.len() - i,
    {
        let x = resolved[i];
        assert(resolved@.subrange(0, i + 1).drop_last() =~= resolved@.subrange(0, i as int));
        assert(resolved@.subrange(0, i + 1).last() == x);
        if usable_lan_ipv4(x) && !holds(&out, x) {
            out.push(x);
        }
        i += 1;
    }
    assert(resolved@.subrange(0, resolved@.len() as int) =~= resolved@);
    if out.len() == 0 {
        if let Some(f) = fallback {
            if usable_lan_ipv4(f) {
                out.push(f);
                assert(out@ =~= seq![f]);
            }
        }
    }
    out
}

/// Dotted-decimal text of an IPv4 address.
pub open spec fn v4_text(x: u32) -> Seq<char> {
    decimal((x / 16777216) as nat) + "."@ + decimal(((x / 65536) % 256) as nat) + "."@
        + decimal(((x / 256) % 256) as nat) + "."@ + decimal((x % 256) as nat)
}

/// Dotted-decimal text of an IPv4 address.
pub fn ipv4_text(x: u32) -> (s: String)
    ensures
        s@ == v4_text(x),
{
    let mut cs: Vec<char> = Vec::new();
    push_decimal(&mut cs, (x / 16777216) as u64);
    cs.push('.');
    push_decimal(&mut cs, ((x / 65536) % 256) as u64);
    cs.push('.');
    push_decimal(&mut cs, ((x / 256) % 256) as u64);
    cs.push('.');
    push_decimal(&mut cs, (x % 256) as u64);
    proof {
        reveal_strlit(".");
    }
    assert(cs@ =~= v4_text(x));
    string_from_chars(&cs)
}

/// The addresses as text, separated by ", ".
pub open spec fn list_text(ips: Seq<u32>) -> Seq<char>
    decreases ips.len(),
{
    if ips.len() == 0 {
        Seq::empty()
    } else if ips.len() == 1 {
        v4_text(ips[0])
    } else {
        list_text(ips.drop_last()) + ", "@ + v4_text(ips.last())
    }
}

/// The settings window's identity line: "This PC: <name> — <addresses>", or
/// a note that no LAN address was found.
pub open spec fn this_pc_text(name: Seq<char>, ips: Seq<u32>) -> Seq<char> {
    "This PC: "@ + name + " \u{2014} "@ + (if ips.len() == 0 { "no LAN IPv4 found"@ } else { list_text(ips) })
}

/// The settings window's identity line.
pub fn this_pc_line(name: &str, ips: &[u32]) -> (s: String)
    ensures
        s@ == this_pc_text(name@, ips@),
{
    let mut cs: Vec<char> = Vec::new();
    extend_chars(&mut cs, "This PC: ");
    extend_chars(&mut cs, name);
    extend_chars(&mut cs, " \u{2014} ");
    let ghost head = cs@;
    if ips.len() == 0 {
        extend_chars(&mut cs, "no LAN IPv4 found");
        return string_from_chars(&cs);
    }
    let mut i: usize = 0;
    while i < ips.len()
        invariant
            i <= ips@.len(),
            cs@ == head + list_text(ips@.subrange(0, i as int)),
        decreases ips@.len() - i,
    {
        let ghost sub = ips@.subrange(0, i + 1);
        assert(sub.drop_last() =~= ips@.subrange(0, i as int));
        if i > 0 {
            extend_chars(&mut cs, ", ");
        }
        let t = ipv4_text(ips[i]);
        extend_chars(&mut cs, t.as_str());
        if i == 0 {
            assert(list_text(ips@.subrange(0, 0)) =~= Seq::<char>::empty());
            assert(cs@ =~= head + list_text(sub));
        } else {
            assert(cs@ =~= head + list_text(sub));
        }
        i += 1;
    }
    assert(ips@.subrange(0, ips@.len() as int) =~= ips@);
    string_from_chars(&cs)
}

/// The computer's name as the system reports it, or "windows-pc".
pub fn hostname_or_default(reported: Option<&str>) -> (s: String)
    ensures
        s@ == (match reported {
            Some(r) => r@,
            None => "windows-pc"@,
        }),
{
    match reported {
        Some(r) => string_from_chars(&chars_of(r)),
        None => string_from_chars(&chars_of("windows-pc")),
    }
}

/// The name this PC advertises and shows when pairing: what the system
/// reported, trimmed, or "keyboard-it PC" when that is empty or missing.
pub fn device_name(reported: Option<&str>) -> (s: String)
    ensures
        s@ == (match reported {
            Some(r) => if trimmed(r@).len() > 0 { trimmed(r@) } else { "keyboard-it PC"@ },
            None => "keyboard-it PC"@,
        }),
{
    match reported {
        Some(r) => {
            let t = trim_chars(&chars_of(r));
            if t.len() > 0 {
                string_from_chars(&t)
            } else {
                string_from_chars(&chars_of("keyboard-it PC"))
            }
        },
        None => string_from_chars(&chars_of("keyboard-it PC")),
    }
}

}
