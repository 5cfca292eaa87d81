//! What the sender knows from browsing mDNS for receivers: who is advertising
//! right now, whether the network has ever answered at all, and how long the
//! browse has run.  The browse itself (a socket and a thread) lives in the
//! application; it reports each resolved or removed service here.

use vstd::prelude::*;
use crate::pairing::PAIRING_VERSION;
use crate::text::{chars_of, decimal, extend_chars, push_decimal, string_from_chars, parse_u16, parse_u16_text};

verus! {

/// The TXT key announcing the pairing port.
pub const MDNS_TXT_PAIR_PORT: &'static str = "pair";

/// The TXT key announcing the pairing protocol version.
pub const MDNS_TXT_PAIR_VERSION: &'static str = "pairv";

/// How long the browse may come back empty before the UI stops saying
/// "Searching your network…" and starts saying why, in milliseconds.
pub const DISCOVERY_GRACE_MS: u64 = 8000;

/// The service type receivers advertise.
pub open spec fn mdns_service() -> Seq<char> {
    "_keyboard-it._tcp.local."@
}

/// The service type receivers advertise, as text.
pub fn mdns_service_name() -> (s: &'static str)
    ensures
        s@ == mdns_service(),
{
    "_keyboard-it._tcp.local."
}

/// One receiver found on the network.  `fullname` is the key: a removal
/// carries nothing else.
#[derive(Clone, PartialEq, Eq, Debug)]
pub struct DiscoveredPeer {
    pub fullname: String,
    pub name: String,
    /// The resolved address, as text.
    pub host: String,
    /// The advertised ".local" name, trailing dots removed.
    pub hostname: String,
    /// Session port.
    pub port: u16,
    /// Pairing port; `None` for a receiver built before pairing existed.
    pub pair_port: Option<u16>,
}

/// A discovered peer with its texts as character sequences.
pub struct PeerView {
    pub fullname: Seq<char>,
    pub name: Seq<char>,
    pub host: Seq<char>,
    pub hostname: Seq<char>,
    pub port: u16,
    pub pair_port: Option<u16>,
}

impl View for DiscoveredPeer {
    type V = PeerView;

    open spec fn view(&self) -> PeerView {
        PeerView {
            fullname: self.fullname@,
            name: self.name@,
            host: self.host@,
            hostname: self.hostname@,
            port: self.port,
            pair_port: self.pair_port,
        }
    }
}

/// `s` with every trailing '.' removed.
pub open spec fn trim_trailing_dots(s: Seq<char>) -> Seq<char>
    decreases s.len(),
{
    if s.len() > 0 && s.last() == '.' {
        trim_trailing_dots(s.drop_last())
    } else {
        s
    }
}

/// Does `s` end with `suffix`?
pub open spec fn ends_with(s: Seq<char>, suffix: Seq<char>) -> bool {
    s.len() >= suffix.len() && s.subrange(s.len() - suffix.len(), s.len() as int) == suffix
}

/// The instance part of a full service name: the service type stripped from
/// the end, then any trailing dots; the full name itself if it does not end
/// with the service type.
pub open spec fn instance_name(full: Seq<char>) -> Seq<char> {
    if ends_with(full, mdns_service()) {
        trim_trailing_dots(full.subrange(0, full.len() - mdns_service().len()))
    } else {
        full
    }
}

/// The pairing port a TXT value announces: a port number other than 0.
pub open spec fn pair_port_of(txt: Option<Seq<char>>) -> Option<u16> {
    match txt {
        Some(t) => match parse_u16_text(t) {
            Some(p) => if p != 0 { Some(p) } else { None },
            None => None,
        },
        None => None,
    }
}

/// The length of `cs` without its trailing dots.
fn trimmed_dots_len(cs: &Vec<char>) -> (n: usize)
    ensures
        n <= cs@.len(),
        trim_trailing_dots(cs@) == cs@.subrange(0, n as int),
{
    let mut n = cs.len();
    assert(cs@.subrange(0, n as int) =~= cs@);
    while n > 0 && cs[n - 1] == '.'
        invariant
            n <= cs@.len(),
            trim_trailing_dots(cs@) == trim_trailing_dots(cs@.subrange(0, n as int)),
        decreases n,
    {
        assert(cs@.subrange(0, n as int).drop_last() =~= cs@.subrange(0, n - 1));
        n -= 1;
    }
    n
}

/// Does `cs` end with `suffix`?
fn ends_with_chars(cs: &Vec<char>, suffix: &Vec<char>) -> (b: bool)
    ensures
        b == ends_with(cs@, suffix@),
{
    if cs.len() < suffix.len() {
        return false;
    }
    let total = cs.len();
    let off = total - suffix.len();
    let mut k: usize = 0;
    while k < suffix.len()
        invariant
            total == cs@.len(),
            off + suffix@.len() == cs@.len(),
            suffix@.len() <= cs@.len(),
            k <= suffix@.len(),
            forall|j: int| 0 <= j < k ==> cs@[off + j] == suffix@[j],
        decreases suffix@.len() - k,
    {
        assert(off + k < cs@.len());
        let at: usize = off + k;
        if cs[at] != suffix[k] {
            assert(cs@.subrange(off as int, cs@.len() as int)[k as int] != suffix@[k as int]);
            return false;
        }
        k += 1;
    }
    assert(cs@.subrange(off as int, cs@.len() as int) =~= suffix@);
    true
}

/// The first `n` characters of `cs`.
fn take_prefix(cs: &Vec<char>, n: usize) -> (v: Vec<char>)
    requires
        n <= cs@.len(),
    ensures
        v@ == cs@.subrange(0, n as int),
{
    let mut v: Vec<char> = Vec::new();
    let mut i: usize = 0;
    while i < n
        invariant
            n <= cs@.len(),
            i <= n,
            v@ == cs@.subrange(0, i as int),
        decreases n - i,
    {
        v.push(cs[i]);
        i += 1;
        assert(v@ =~= cs@.subrange(0, i as int));
    }
    v
}

/// `s` with its trailing dots removed.
pub fn trim_dots(s: &str) -> (r: String)
    ensures
        r@ == trim_trailing_dots(s@),
{
    let cs = chars_of(s);
    let n = trimmed_dots_len(&cs);
    string_from_chars(&take_prefix(&cs, n))
}

/// The instance name of a full service name ("DESKTOP-ABC" out of
/// "DESKTOP-ABC._keyboard-it._tcp.local.").
pub fn service_instance_name(fullname: &str) -> (s: String)
    ensures
        s@ == instance_name(fullname@),
{
    let cs = chars_of(fullname);
    let suffix = chars_of(mdns_service_name());
    if ends_with_chars(&cs, &suffix) {
        let head = take_prefix(&cs, cs.len() - suffix.len());
        let n = trimmed_dots_len(&head);
        assert(head@.subrange(0, n as int) =~= cs@.subrange(0, n as int));
        string_from_chars(&take_prefix(&head, n))
    } else {
        string_from_chars(&cs)
    }
}

/// The pairing port a receiver announces in its TXT record, if it is a port
/// number other than 0.
pub fn parse_pair_port(txt: Option<&str>) -> (r: Option<u16>)
    ensures
        r == pair_port_of(match txt { Some(t) => Some(t@), None => None }),
{
    match txt {
        Some(t) => {
            let cs = chars_of(t);
            match parse_u16(&cs) {
                Some(p) => if p != 0 { Some(p) } else { None },
                None => None,
            }
        },
        None => None,
    }
}

/// The peer a resolved service describes.  `host` is the chosen address as
/// text; the name comes from the full service name, the host name loses its
/// trailing dots, and the pairing port is read from the TXT value.
pub fn make_peer(fullname: &str, host: &str, hostname: &str, port: u16, pair_txt: Option<&str>) -> (p: DiscoveredPeer)
    ensures
        p@ == (PeerView {
            fullname: fullname@,
            name: instance_name(fullname@),
            host: host@,
            hostname: trim_trailing_dots(hostname@),
            port: port,
            pair_port: pair_port_of(match pair_txt { Some(t) => Some(t@), None => None }),
        }),
{
    DiscoveredPeer {
        fullname: string_from_chars(&chars_of(fullname)),
        name: service_instance_name(fullname),
        host: string_from_chars(&chars_of(host)),
        hostname: trim_dots(hostname),
        port,
        pair_port: parse_pair_port(pair_txt),
    }
}

// ----- the browse state -----

/// No two entries share a full service name.
pub open spec fn unique_names(s: Seq<PeerView>) -> bool {
    forall|i: int, j: int| 0 <= i < j < s.len() ==> s[i].fullname != s[j].fullname
}

/// Is some entry of `s` named `name`?
pub open spec fn has_name(s: Seq<PeerView>, name: Seq<char>) -> bool {
    exists|i: int| 0 <= i < s.len() && s[i].fullname == name
}

/// `s` after a resolved service `p`: its entry replaced in place when one
/// with the same full name exists, appended otherwise.
pub open spec fn upsert(s: Seq<PeerView>, p: PeerView) -> Seq<PeerView> {
    if has_name(s, p.fullname) {
        s.update(choose|i: int| 0 <= i < s.len() && s[i].fullname == p.fullname, p)
    } else {
        s.push(p)
    }
}

/// `s` without the entries named `name`, the rest in order.
pub open spec fn without_name(s: Seq<PeerView>, name: Seq<char>) -> Seq<PeerView>
    decreases s.len(),
{
    if s.len() == 0 {
        s
    } else if s.last().fullname == name {
        without_name(s.drop_last(), name)
    } else {
        without_name(s.drop_last(), name).push(s.last())
    }
}

proof fn lemma_without_name(s: Seq<PeerView>, name: Seq<char>)
    ensures
        forall|k: int| 0 <= k < without_name(s, name).len() ==>
            (#[trigger] without_name(s, name)[k]).fullname != name
            && s.contains(without_name(s, name)[k]),
        forall|k: int| 0 <= k < s.len() && s[k].fullname != name ==>
            without_name(s, name).contains(#[trigger] s[k]),
        unique_names(s) ==> unique_names(without_name(s, name)),
    decreases s.len(),
{
    if s.len() > 0 {
        let t = s.drop_last();
        lemma_without_name(t, name);
        let r = without_name(t, name);
        assert forall|k: int| 0 <= k < r.len() implies s.contains(#[trigger] r[k]) by {
            let j = choose|j: int| 0 <= j < t.len() && t[j] == r[k];
            assert(s[j] == r[k]);
        }
        assert forall|k: int| 0 <= k < s.len() && s[k].fullname != name implies
            without_name(s, name).contains(#[trigger] s[k]) by {
            if k < s.len() - 1 {
                assert(t[k] == s[k]);
                let j = choose|j: int| 0 <= j < r.len() && r[j] == t[k];
                if s.last().fullname != name {
                    assert(r.push(s.last())[j] == s[k]);
                }
            } else {
                assert(r.push(s.last())[r.len() as int] == s[k]);
            }
        }
        if unique_names(s) && s.last().fullname != name {
            assert(unique_names(t));
            let out = r.push(s.last());
            assert forall|i: int, j: int| 0 <= i < j < out.len() implies out[i].fullname != out[j].fullname by {
                if j == r.len() {
                    let m = choose|m: int| 0 <= m < t.len() && t[m] == r[i];
                    assert(s[m] == out[i]);
                    assert(s[s.len() - 1] == out[j]);
                }
            }
        }
    }
}

/// The sender's view of the mDNS browse.  Created idle; `start` records when
/// the browse began, and the application reports every resolved and removed
/// service.
pub struct Discovery {
    started_ms: Option<u64>,
    peers: Vec<DiscoveredPeer>,
    answered: bool,
}

impl Discovery {
    /// When the browse started (milliseconds on the caller's clock).
    pub closed spec fn started_at(&self) -> Option<u64> {
        self.started_ms
    }

    /// The receivers currently advertising, in the order they first resolved.
    pub closed spec fn peer_views(&self) -> Seq<PeerView> {
        self.peers@.map_values(|p: DiscoveredPeer| p@)
    }

    /// Has any service ever resolved?
    pub closed spec fn has_answered(&self) -> bool {
        self.answered
    }

    /// Every full name is listed at most once.
    pub open spec fn wf(&self) -> bool {
        unique_names(self.peer_views())
    }

    /// A browse that has not started.
    pub fn new() -> (d: Discovery)
        ensures
            d.wf(),
            d.started_at() is None,
            d.peer_views() == Seq::<PeerView>::empty(),
            !d.has_answered(),
    {
        let d = Discovery { started_ms: None, peers: Vec::new(), answered: false };
        assert(d.peer_views() =~= Seq::<PeerView>::empty());
        d
    }

    /// Start browsing at `now_ms`.  Only the first call does anything, so every
    /// window may call it; it answers whether this call was the one that
    /// started the browse (the caller then spawns it).
    pub fn start(&mut self, now_ms: u64) -> (first: bool)
        ensures
            first == old(self).started_at() is None,
            final(self).started_at() == (if first { Some(now_ms) } else { old(self).started_at() }),
            final(self).peer_views() == old(self).peer_views(),
            final(self).has_answered() == old(self).has_answered(),
    {
        match self.started_ms {
            Some(_) => false,
            None => {
                self.started_ms = Some(now_ms);
                true
            },
        }
    }

    /// The receivers currently advertising.
    pub fn peers(&self) -> (v: &Vec<DiscoveredPeer>)
        ensures
            v@.map_values(|p: DiscoveredPeer| p@) == self.peer_views(),
    {
        &self.peers
    }

    /// True once anything has answered: proof that local network access
    /// works.  Never goes back to false.
    pub fn ever_answered(&self) -> (b: bool)
        ensures
            b == self.has_answered(),
    {
        self.answered
    }

    /// Time since the browse started; `None` before it has.
    pub fn elapsed(&self, now_ms: u64) -> (r: Option<u64>)
        ensures
            r == (match self.started_at() {
                Some(t) => Some(if now_ms >= t { (now_ms - t) as u64 } else { 0u64 }),
                None => None,
            }),
    {
        match self.started_ms {
            Some(t) => Some(if now_ms >= t { now_ms - t } else { 0 }),
            None => None,
        }
    }

    /// Has the browse run for the grace period with nothing to show?  Follows
    /// the live list, so a receiver that goes away brings this back.
    pub fn stalled(&self, now_ms: u64) -> (b: bool)
        ensures
            b == (match self.started_at() {
                Some(t) => now_ms >= t && now_ms - t >= DISCOVERY_GRACE_MS
                    && self.peer_views().len() == 0,
                None => false,
            }),
    {
        match self.started_ms {
            Some(t) => now_ms >= t && now_ms - t >= DISCOVERY_GRACE_MS && self.peers.len() == 0,
            None => false,
        }
    }

    /// A service resolved: the network has answered, and the peer replaces
    /// the entry with its full name or joins the end of the list.
    pub fn on_resolved(&mut self, peer: DiscoveredPeer)
        requires
            old(self).wf(),
        ensures
            final(self).wf(),
            final(self).peer_views() == upsert(old(self).peer_views(), peer@),
            final(self).peer_views().contains(peer@),
            final(self).has_answered(),
            final(self).started_at() == old(self).started_at(),
    {
        self.answered = true;
        let ghost s = old(self).peer_views();
        let ghost p = peer@;
        match self.position_of(&peer.fullname) {
            Some(i) => {
                assert forall|j: int| 0 <= j < s.len() && s[j].fullname == p.fullname implies j == i by {
                    if j != i {
                        assert(s[i as int].fullname != s[j].fullname);
                    }
                }
                assert(has_name(s, p.fullname));
                let ghost c = choose|j: int| 0 <= j < s.len() && s[j].fullname == p.fullname;
                assert(c == i);
                self.peers.set(i, peer);
                assert(self.peer_views() =~= s.update(i as int, p));
                let ghost out = s.update(i as int, p);
                assert(out[i as int] == p);
                assert forall|a: int, b: int| 0 <= a < b < out.len() implies out[a].fullname != out[b].fullname by {
                    assert(s[a].fullname != s[b].fullname);
                }
            },
            None => {
                assert(!has_name(s, p.fullname));
                self.peers.push(peer);
                assert(self.peer_views() =~= s.push(p));
                assert(s.push(p)[s.len() as int] == p);
            },
        }
    }

    /// Where the entry named `name` stands, if any.
    fn position_of(&self, name: &String) -> (r: Option<usize>)
        ensures
            match r {
                Some(i) => i < self.peer_views().len() && self.peer_views()[i as int].fullname == name@,
                None => !has_name(self.peer_views(), name@),
            },
    {
        let ghost s = self.peer_views();
        let mut i: usize = 0;
        while i < self.peers.len()
            invariant
                self.peers@.map_values(|q: DiscoveredPeer| q@) == s,
                i <= s.len(),
                forall|j: int| 0 <= j < i ==> s[j].fullname != name@,
            decreases s.len() - i,
        {
            assert(s[i as int] == self.peers@[i as int]@);
            if self.peers[i].fullname == *name {
                return Some(i);
            }
            i += 1;
        }
        None
    }

    /// A service went away: every entry with its full name leaves the list.
    pub fn on_removed(&mut self, fullname: &str)
        requires
            old(self).wf(),
        ensures
            final(self).wf(),
            final(self).peer_views() == without_name(old(self).peer_views(), fullname@),
            !has_name(final(self).peer_views(), fullname@),
            final(self).has_answered() == old(self).has_answered(),
            final(self).started_at() == old(self).started_at(),
    {
        let ghost s = old(self).peer_views();
        let ghost name = fullname@;
        let mut kept: Vec<DiscoveredPeer> = Vec::new();
        let mut old_list: Vec<DiscoveredPeer> = Vec::new();
        std::mem::swap(&mut old_list, &mut self.peers);
        let target = string_from_chars(&chars_of(fullname));
        let mut i: usize = 0;
        let n = old_list.len();
        proof {
            assert(s.subrange(0, 0) =~= Seq::<PeerView>::empty());
            assert(kept@.map_values(|q: DiscoveredPeer| q@) =~= Seq::<PeerView>::empty());
        }
        while i < n
            invariant
                n == old_list@.len(),
                old_list@.map_values(|q: DiscoveredPeer| q@) == s,
                i <= n,
                kept@.map_values(|q: DiscoveredPeer| q@) == without_name(s.subrange(0, i as int), name),
                name == fullname@,
                target@ == name,
            decreases n - i,
        {
            assert(s[i as int] == old_list@[i as int]@);
            let ghost pre = s.subrange(0, i as int);
            assert(s.subrange(0, i + 1).drop_last() =~= pre);
            assert(s.subrange(0, i + 1).last() == old_list@[i as int]@);
            if !(old_list[i].fullname == target) {
                let q = old_list[i].clone_peer();
                kept.push(q);
                assert(kept@.map_values(|q: DiscoveredPeer| q@) =~= without_name(pre, name).push(s[i as int]));
            }
            i += 1;
        }
        assert(s.subrange(0, n as int) =~= s);
        proof {
            lemma_without_name(s, name);
        }
        self.peers = kept;
    }
}

impl DiscoveredPeer {
    /// A copy of this peer.
    pub fn clone_peer(&self) -> (p: DiscoveredPeer)
        ensures
            p@ == self@,
    {
        DiscoveredPeer {
            fullname: self.fullname.clone(),
            name: self.name.clone(),
            host: self.host.clone(),
            hostname: self.hostname.clone(),
            port: self.port,
            pair_port: self.pair_port,
        }
    }
}

// ----- what a receiver advertises -----

/// The TXT record a receiver advertises: its pairing version, and its
/// pairing port when it listens for pairing.
pub open spec fn txt_record(pair_port: Option<u16>) -> Seq<(Seq<char>, Seq<char>)> {
    let version = seq![("pairv"@, decimal(PAIRING_VERSION as nat))];
    match pair_port {
        Some(p) => version.push(("pair"@, decimal(p as nat))),
        None => version,
    }
}

fn number_text(n: u64) -> (s: String)
    ensures
        s@ == decimal(n as nat),
{
    let mut cs: Vec<char> = Vec::new();
    push_decimal(&mut cs, n);
    assert(cs@ =~= decimal(n as nat));
    string_from_chars(&cs)
}

/// The TXT record's key/value pairs.
pub fn txt_properties(pair_port: Option<u16>) -> (v: Vec<(String, String)>)
    ensures
        v@.map_values(|kv: (String, String)| (kv.0@, kv.1@)) == txt_record(pair_port),
{
    let mut v: Vec<(String, String)> = Vec::new();
    v.push((string_from_chars(&chars_of(MDNS_TXT_PAIR_VERSION)), number_text(PAIRING_VERSION as u64)));
    proof {
        reveal_strlit("pairv");
        reveal_strlit("pair");
    }
    match pair_port {
        Some(p) => {
            v.push((string_from_chars(&chars_of(MDNS_TXT_PAIR_PORT)), number_text(p as u64)));
        },
        None => {},
    }
    assert(v@.map_values(|kv: (String, String)| (kv.0@, kv.1@)) =~= txt_record(pair_port));
    v
}

/// The host name a receiver advertises: its device name under ".local.".
pub fn mdns_host_name(device: &str) -> (s: String)
    ensures
        s@ == device@ + ".local."@,
{
    let mut cs: Vec<char> = chars_of(device);
    extend_chars(&mut cs, ".local.");
    string_from_chars(&cs)
}

}
