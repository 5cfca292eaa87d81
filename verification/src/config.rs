//! Persistent configuration: the shared secret, where the peer is, which side
//! this machine plays, and the session port. Loading and saving the TOML file is
//! the application's job; this module holds what the library decides from it.

use vstd::prelude::*;
use vstd::string::*;

use crate::text::{
    all_digits, chars_of, decimal, digit_char, is_digit, parse_u16, parse_u16_text, push_decimal, string_from_chars,
    trim_chars, trimmed,
};
use crate::wire::DEFAULT_PORT;

verus! {

/// Which side of the link this machine is.
#[derive(Clone, Copy, PartialEq, Eq, Debug, Structural)]
pub enum Role {
    /// macOS: captures and sends.
    Sender,
    /// Windows: receives and injects.
    Receiver,
}

impl Default for Role {
    fn default() -> (r: Role)
        ensures
            r == Role::Sender,
    {
        Role::Sender
    }
}

/// The configuration file's contents.
#[derive(Debug)]
pub struct Config {
    /// The pairing key; the same on both sides, hashed into the session PSK.
    pub shared_secret: String,
    /// Where the sender connects: normally the peer's `.local` name.
    pub peer_host: String,
    /// Last known IP of the peer, tried when `peer_host` does not resolve.
    pub peer_ip: String,
    pub role: Role,
    pub port: u16,
}

/// The session port a configuration without one gets.
pub fn default_port() -> (p: u16)
    ensures
        p == DEFAULT_PORT,
{
    DEFAULT_PORT
}

impl Default for Config {
    fn default() -> (c: Config)
        ensures
            c.shared_secret@ == Seq::<char>::empty(),
            c.peer_host@ == Seq::<char>::empty(),
            c.peer_ip@ == Seq::<char>::empty(),
            c.role == Role::Sender,
            c.port == DEFAULT_PORT,
    {
        Config {
            shared_secret: String::new(),
            peer_host: String::new(),
            peer_ip: String::new(),
            role: Role::Sender,
            port: default_port(),
        }
    }
}

// ----- address normalisation -----

/// Index of the last `c` in `s`, or -1.
pub open spec fn last_index_of(s: Seq<char>, c: char) -> int
    decreases s.len(),
{
    if s.len() == 0 {
        -1
    } else if s.last() == c {
        s.len() - 1
    } else {
        last_index_of(s.drop_last(), c)
    }
}

/// Does `host` already end in an explicit ":<digits>" port? Only the text after
/// the LAST colon counts, and an IPv6 literal's own colons do not make a port
/// unless the address is bracketed.
pub open spec fn has_explicit_port(host: Seq<char>) -> bool {
    let i = last_index_of(host, ':');
    let head = host.subrange(0, i);
    let tail = host.subrange(i + 1, host.len() as int);
    &&& i >= 0
    &&& tail.len() > 0
    &&& all_digits(tail)
    &&& (!head.contains(':') || (head.len() > 0 && head.last() == ']'))
}

/// "host" or "host:port" normalised to "host:port".
pub open spec fn host_with_port(host: Seq<char>, port: u16) -> Seq<char> {
    if has_explicit_port(host) {
        host
    } else {
        host + seq![':'] + decimal(port as nat)
    }
}

/// Every address worth trying, best first: the host name, then the last known
/// IP, each only if non-empty and not already listed.
pub open spec fn peer_addr_list(host: Seq<char>, ip: Seq<char>, port: u16) -> Seq<Seq<char>> {
    let first = if host.len() == 0 {
        Seq::<Seq<char>>::empty()
    } else {
        seq![host_with_port(host, port)]
    };
    if ip.len() == 0 || first.contains(host_with_port(ip, port)) {
        first
    } else {
        first.push(host_with_port(ip, port))
    }
}

proof fn lemma_last_index_bounds(s: Seq<char>, c: char)
    ensures
        -1 <= last_index_of(s, c) < s.len(),
        last_index_of(s, c) >= 0 ==> s[last_index_of(s, c)] == c,
        last_index_of(s, c) >= 0 <==> s.contains(c),
    decreases s.len(),
{
    if s.len() > 0 {
        lemma_last_index_bounds(s.drop_last(), c);
        if s.last() != c {
            if s.contains(c) {
                let k = choose|k: int| 0 <= k < s.len() && s[k] == c;
                assert(s.drop_last()[k] == c);
            }
            if s.drop_last().contains(c) {
                let k = choose|k: int| 0 <= k < s.drop_last().len() && s.drop_last()[k] == c;
                assert(s[k] == c);
            }
        } else {
            assert(s[s.len() - 1] == c);
        }
    }
}

fn last_index(cs: &[char], c: char) -> (r: Option<usize>)
    ensures
        r matches Some(i) ==> last_index_of(cs@, c) == i && i < cs@.len(),
        r is None ==> last_index_of(cs@, c) == -1,
{
    let mut j = cs.len();
    assert(cs@.subrange(0, j as int) =~= cs@);
    while j > 0
        invariant
            j <= cs@.len(),
            last_index_of(cs@, c) == last_index_of(cs@.subrange(0, j as int), c),
        decreases j,
    {
        assert(cs@.subrange(0, j as int).last() == cs@[j - 1]);
        if cs[j - 1] == c {
            return Some(j - 1);
        }
        assert(cs@.subrange(0, j as int).drop_last() =~= cs@.subrange(0, j - 1));
        j -= 1;
    }
    None
}

fn has_explicit_port_exec(cs: &[char]) -> (b: bool)
    ensures
        b == has_explicit_port(cs@),
{
    proof {
        lemma_last_index_bounds(cs@, ':');
    }
    let i = match last_index(cs, ':') {
        Some(i) => i,
        None => return false,
    };
    let n = cs.len();
    if i + 1 >= n {
        assert(cs@.subrange(i + 1, n as int).len() == 0);
        return false;
    }
    let mut k = i + 1;
    while k < n
        invariant
            i + 1 <= k <= n == cs@.len(),
            i as int == last_index_of(cs@, ':'),
            all_digits(cs@.subrange(i + 1, k as int)),
        decreases n - k,
    {
        let u = cs[k] as u32;
        if u < 48 || u > 57 {
            assert(cs@.subrange(i + 1, n as int)[k - (i + 1)] == cs@[k as int]);
            assert(!is_digit(cs@.subrange(i + 1, n as int)[k - (i + 1)]));
            assert(!all_digits(cs@.subrange(i + 1, n as int)));
            return false;
        }
        k += 1;
        assert(all_digits(cs@.subrange(i + 1, k as int))) by {
            assert forall|j: int| 0 <= j < k - (i + 1) implies is_digit(
                #[trigger] cs@.subrange(i + 1, k as int)[j],
            ) by {
                if j < k - 1 - (i + 1) {
                    assert(cs@.subrange(i + 1, k as int)[j] == cs@.subrange(i + 1, k - 1)[j]);
                }
            }
        }
    }
    let mut head: Vec<char> = Vec::new();
    let mut h: usize = 0;
    while h < i
        invariant
            h <= i < cs@.len(),
            head@ == cs@.subrange(0, h as int),
        decreases i - h,
    {
        head.push(cs[h]);
        h += 1;
        assert(head@ =~= cs@.subrange(0, h as int));
    }
    proof {
        lemma_last_index_bounds(cs@.subrange(0, i as int), ':');
    }
    let head_has_colon = match last_index(&head, ':') {
        Some(_) => true,
        None => false,
    };
    assert(head@ == cs@.subrange(0, i as int));
    !head_has_colon || (i > 0 && cs[i - 1] == ']')
}

impl Config {
    /// Normalise "host" or "host:port" to "host:port". An IPv6 literal already
    /// carries colons, so only a trailing ":<digits>" counts as an explicit port,
    /// and only when nothing before it has a colon or it follows a `]`.
    pub fn with_port(host: &str, port: u16) -> (s: String)
        ensures
            s@ == host_with_port(host@, port),
    {
        let cs = chars_of(host);
        if has_explicit_port_exec(&cs) {
            return string_from_chars(&cs);
        }
        let mut out = cs;
        out.push(':');
        push_decimal(&mut out, port as u64);
        assert(out@ =~= host@ + seq![':'] + decimal(port as nat));
        string_from_chars(&out)
    }

    /// The normalised `peer_host`.
    pub fn peer_addr(&self) -> (s: String)
        ensures
            s@ == host_with_port(self.peer_host@, self.port),
    {
        Self::with_port(self.peer_host.as_str(), self.port)
    }

    /// Every address worth trying, best first: the host name, then the last
    /// known IP. Empty entries and duplicates are dropped.
    pub fn peer_addrs(&self) -> (v: Vec<String>)
        ensures
            v@.map_values(|s: String| s@) == peer_addr_list(self.peer_host@, self.peer_ip@, self.port),
    {
        let mut out: Vec<String> = Vec::new();
        if !self.peer_host.as_str().is_empty() {
            out.push(Self::with_port(self.peer_host.as_str(), self.port));
        }
        let ghost first = out@.map_values(|s: String| s@);
        assert(first =~= (if self.peer_host@.len() == 0 {
            Seq::<Seq<char>>::empty()
        } else {
            seq![host_with_port(self.peer_host@, self.port)]
        }));
        if !self.peer_ip.as_str().is_empty() {
            let a = Self::with_port(self.peer_ip.as_str(), self.port);
            let dup = out.len() == 1 && out[0] == a;
            assert(dup == first.contains(a@)) by {
                if first.contains(a@) {
                    let k = choose|k: int| 0 <= k < first.len() && first[k] == a@;
                    assert(k == 0);
                }
                if dup {
                    assert(first[0] == a@);
                }
            }
            if !dup {
                out.push(a);
                assert(out@.map_values(|s: String| s@) =~= first.push(a@));
            }
        }
        out
    }

    /// Is first-run setup done? Both sides need the secret; the sender also
    /// needs somewhere to connect to.
    pub fn is_complete(&self) -> (b: bool)
        ensures
            b == (self.shared_secret@.len() > 0 && (self.role == Role::Receiver
                || self.peer_host@.len() > 0 || self.peer_ip@.len() > 0)),
    {
        if self.shared_secret.as_str().is_empty() {
            return false;
        }
        match self.role {
            Role::Sender => {
                let addrs = self.peer_addrs();
                assert(addrs@.len() == addrs@.map_values(|s: String| s@).len());
                addrs.len() > 0
            },
            Role::Receiver => true,
        }
    }
}

proof fn lemma_digit_char(d: nat)
    requires
        d < 10,
    ensures
        is_digit(digit_char(d)),
        digit_char(d) != ':',
{
    if d == 0 {
        assert(digit_char(d) == '0');
    } else if d == 1 {
        assert(digit_char(d) == '1');
    } else if d == 2 {
        assert(digit_char(d) == '2');
    } else if d == 3 {
        assert(digit_char(d) == '3');
    } else if d == 4 {
        assert(digit_char(d) == '4');
    } else if d == 5 {
        assert(digit_char(d) == '5');
    } else if d == 6 {
        assert(digit_char(d) == '6');
    } else if d == 7 {
        assert(digit_char(d) == '7');
    } else if d == 8 {
        assert(digit_char(d) == '8');
    } else {
        assert(digit_char(d) == '9');
    }
}

proof fn lemma_decimal_digits(n: nat)
    ensures
        decimal(n).len() > 0,
        all_digits(decimal(n)),
        !decimal(n).contains(':'),
    decreases n,
{
    if n < 10 {
        lemma_digit_char(n);
        assert(decimal(n) == seq![digit_char(n)]);
    } else {
        lemma_decimal_digits(n / 10);
        lemma_digit_char(n % 10);
        let d = decimal(n);
        assert(d == decimal(n / 10).push(digit_char(n % 10)));
        assert forall|i: int| 0 <= i < d.len() implies is_digit(#[trigger] d[i]) by {
            if i < d.len() - 1 {
                assert(d[i] == decimal(n / 10)[i]);
            }
        }
        if d.contains(':') {
            let k = choose|k: int| 0 <= k < d.len() && d[k] == ':';
            if k < d.len() - 1 {
                assert(decimal(n / 10)[k] == ':');
            }
        }
    }
}

proof fn lemma_last_index_skips(s: Seq<char>, t: Seq<char>, c: char)
    requires
        !t.contains(c),
    ensures
        last_index_of(s + t, c) == last_index_of(s, c),
    decreases t.len(),
{
    if t.len() == 0 {
        assert(s + t =~= s);
    } else {
        assert((s + t).last() == t.last());
        assert((s + t).drop_last() =~= s + t.drop_last());
        assert(!t.drop_last().contains(c)) by {
            if t.drop_last().contains(c) {
                let k = choose|k: int| 0 <= k < t.drop_last().len() && t.drop_last()[k] == c;
                assert(t[k] == c);
            }
        }
        lemma_last_index_skips(s, t.drop_last(), c);
    }
}

/// Normalising an address twice changes nothing: a port the first pass added
/// is recognised by the second.  Holds for names without a colon, bracketed
/// IPv6 literals, and addresses that already carry a port; a bare IPv6
/// literal such as "fe80::1" is the exception, since its own last group
/// reads as a port only once a colon follows it.  A name without a colon
/// simply gets ":<port>" appended.
pub proof fn lemma_with_port_idempotent(host: Seq<char>, p: u16, q: u16)
    requires
        has_explicit_port(host) || !host.contains(':') || (host.len() > 0 && host.last() == ']'),
    ensures
        host_with_port(host_with_port(host, p), q) == host_with_port(host, p),
        !host.contains(':') ==> host_with_port(host, p) == host + seq![':'] + decimal(p as nat),
{
    if !host.contains(':') {
        lemma_last_index_skips(Seq::<char>::empty(), host, ':');
        assert(Seq::<char>::empty() + host =~= host);
        assert(!has_explicit_port(host));
    }
    if !has_explicit_port(host) {
        let d = decimal(p as nat);
        let h1 = host + seq![':'];
        let r = h1 + d;
        lemma_decimal_digits(p as nat);
        lemma_last_index_skips(h1, d, ':');
        assert(h1.last() == ':');
        assert(last_index_of(h1, ':') == host.len());
        let i = last_index_of(r, ':');
        assert(i == host.len());
        assert(r.subrange(0, i) =~= host);
        assert(r.subrange(i + 1, r.len() as int) =~= d);
        assert(has_explicit_port(r));
        assert(host_with_port(host, p) == r);
    }
}

/// Fold the receiver's settings window into the configuration: the role
/// becomes `Receiver`, and the port is the trimmed field text if it parses as a
/// port number, `DEFAULT_PORT` otherwise. Nothing else changes.
pub fn apply_ui(cfg: &mut Config, listen_port: &str)
    ensures
        final(cfg).role == Role::Receiver,
        final(cfg).port == (match parse_u16_text(trimmed(listen_port@)) {
            Some(p) => p,
            None => DEFAULT_PORT,
        }),
        final(cfg).shared_secret == old(cfg).shared_secret,
        final(cfg).peer_host == old(cfg).peer_host,
        final(cfg).peer_ip == old(cfg).peer_ip,
{
    cfg.role = Role::Receiver;
    let cs = chars_of(listen_port);
    let t = trim_chars(&cs);
    cfg.port = match parse_u16(&t) {
        Some(p) => p,
        None => DEFAULT_PORT,
    };
}

}
