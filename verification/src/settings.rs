//! The decisions behind the sender's settings window: which discovered PC is
//! selected, what the popup lists, what the status line says, which buttons
//! are live, and how a pairing outcome or an unpair changes the
//! configuration.  The window, its timer and the pairing thread live in the
//! application, which feeds the current values in and draws what comes out.

use vstd::prelude::*;
use vstd::seq_lib::{to_multiset_build, to_multiset_insert};

use crate::config::{Config, Role};
use crate::discovery::{DiscoveredPeer, PeerView};
use crate::menubar::{ConnStatus, status_of};
use crate::pairing::{PairOutcome, code_display, code_display_text};
use crate::text::{chars_of, extend_chars, push_decimal, decimal, string_from_chars, trimmed, trim_chars};

verus! {

// ----- the connection state source -----

/// Where the status line reads the connection state from.  Registered once
/// by the capture loop; later registrations are ignored.
pub struct ConnStatusSlot<T> {
    source: Option<T>,
}

impl<T> ConnStatusSlot<T> {
    /// What has been registered, if anything.
    pub closed spec fn current(&self) -> Option<T> {
        self.source
    }

    /// Nothing registered yet.
    pub fn new() -> (s: ConnStatusSlot<T>)
        ensures
            s.current() is None,
    {
        ConnStatusSlot { source: None }
    }

    /// The registered source.
    pub fn get(&self) -> (r: Option<&T>)
        ensures
            r == (match self.current() {
                Some(t) => Some(&t),
                None => None,
            }),
    {
        match &self.source {
            Some(t) => Some(t),
            None => None,
        }
    }
}

/// Register where the connection state is read from.  The first
/// registration wins; a later one changes nothing.
pub fn set_conn_status_source<T>(slot: &mut ConnStatusSlot<T>, src: T)
    ensures
        final(slot).current() == (match old(slot).current() {
            Some(t) => Some(t),
            None => Some(src),
        }),
{
    if slot.source.is_none() {
        slot.source = Some(src);
    }
}

/// The status line for a connection state.
pub open spec fn conn_text(s: ConnStatus) -> Seq<char> {
    match s {
        ConnStatus::ConfigNeeded => "Not paired \u{2014} pick your PC below and click Pair & Connect."@,
        ConnStatus::Connecting => "Connecting\u{2026}"@,
        ConnStatus::Connected => "Connected."@,
        ConnStatus::Disconnected => "No connection \u{2014} retrying in the background."@,
        ConnStatus::HandshakeFailed => "The PC rejected the key \u{2014} pair again."@,
    }
}

/// The status line for a connection state.
pub fn conn_status_text(s: ConnStatus) -> (t: &'static str)
    ensures
        t@ == conn_text(s),
{
    match s {
        ConnStatus::ConfigNeeded => "Not paired \u{2014} pick your PC below and click Pair & Connect.",
        ConnStatus::Connecting => "Connecting\u{2026}",
        ConnStatus::Connected => "Connected.",
        ConnStatus::Disconnected => "No connection \u{2014} retrying in the background.",
        ConnStatus::HandshakeFailed => "The PC rejected the key \u{2014} pair again.",
    }
}

// ----- text helpers -----

/// `a` followed by `b`.
fn concat(a: &str, b: &str) -> (s: String)
    ensures
        s@ == a@ + b@,
{
    let mut cs: Vec<char> = Vec::new();
    extend_chars(&mut cs, a);
    extend_chars(&mut cs, b);
    assert(cs@ =~= a@ + b@);
    string_from_chars(&cs)
}

/// `a`, `b` and `c` in a row.
fn concat3(a: &str, b: &str, c: &str) -> (s: String)
    ensures
        s@ == a@ + b@ + c@,
{
    let mut cs: Vec<char> = Vec::new();
    extend_chars(&mut cs, a);
    extend_chars(&mut cs, b);
    extend_chars(&mut cs, c);
    assert(cs@ =~= a@ + b@ + c@);
    string_from_chars(&cs)
}

// ----- the pairing worker's state -----

/// What the pairing worker is doing, as the status line shows it.
#[derive(Debug)]
pub enum PairState {
    /// Nothing in flight: the status line shows the connection state.
    Idle,
    /// In progress; the Pair button stays disabled.
    Busy(String),
    /// A final message, shown until `until_ms`, then back to `Idle`.
    Finished { text: String, until_ms: u64 },
}

/// Is a pairing in flight (or its final message still showing)?
pub open spec fn pairing_busy(p: PairState) -> bool {
    !(p is Idle)
}

/// The text the pairing state puts on the status line at `now_ms`.
pub open spec fn pair_line(p: PairState, now_ms: u64) -> Option<Seq<char>> {
    match p {
        PairState::Idle => None,
        PairState::Busy(t) => Some(t@),
        PairState::Finished { text, until_ms } => if now_ms < until_ms { Some(text@) } else { None },
    }
}

/// Does the final message expire at `now_ms`?
pub open spec fn pair_expires(p: PairState, now_ms: u64) -> bool {
    match p {
        PairState::Finished { until_ms, .. } => now_ms >= until_ms,
        _ => false,
    }
}

/// What one tick of the status line does.
pub struct StatusUpdate {
    /// The text to put on the status line; `None` leaves it as it is.
    pub show: Option<String>,
    /// The pairing's final message expired: the state went back to `Idle`,
    /// and the paired label should be re-read from the configuration.
    pub released: bool,
}

/// One tick of the status line.  Pairing progress outranks everything; a
/// held message (`hold_until_ms`) is left alone until it expires; otherwise
/// the line follows the connection state, when a source is registered.
pub fn status_tick(pair: &mut PairState, hold_until_ms: &mut Option<u64>, conn: Option<u8>, now_ms: u64) -> (u: StatusUpdate)
    ensures
        u.released == pair_expires(*old(pair), now_ms),
        u.released ==> *final(pair) is Idle,
        !u.released ==> *final(pair) == *old(pair),
        match pair_line(*old(pair), now_ms) {
            Some(t) => {
                &&& u.show matches Some(s) && s@ == t
                &&& *final(hold_until_ms) == *old(hold_until_ms)
            },
            None => match *old(hold_until_ms) {
                Some(h) if now_ms < h => {
                    &&& u.show is None
                    &&& *final(hold_until_ms) == *old(hold_until_ms)
                },
                _ => {
                    &&& *final(hold_until_ms) is None
                    &&& match conn {
                        Some(b) => u.show matches Some(s) && s@ == conn_text(status_of(b)),
                        None => u.show is None,
                    }
                },
            },
        },
{
    let mut released = false;
    let line: Option<String> = match pair {
        PairState::Idle => None,
        PairState::Busy(t) => Some(t.clone()),
        PairState::Finished { text, until_ms } => {
            if now_ms < *until_ms {
                Some(text.clone())
            } else {
                released = true;
                None
            }
        },
    };
    if released {
        *pair = PairState::Idle;
    }
    if line.is_some() {
        return StatusUpdate { show: line, released };
    }
    if let Some(h) = *hold_until_ms {
        if now_ms < h {
            return StatusUpdate { show: None, released };
        }
    }
    *hold_until_ms = None;
    let show = match conn {
        Some(b) => Some(string_from_chars(&chars_of(conn_status_text(ConnStatus::from_u8(b))))),
        None => None,
    };
    StatusUpdate { show, released }
}

/// The Pair and Unpair buttons: Pair needs a selected PC, Unpair a finished
/// pairing, and neither is live while a pairing is in flight.
pub fn button_states(pair: &PairState, has_selection: bool, paired: bool) -> (r: (bool, bool))
    ensures
        r == (!pairing_busy(*pair) && has_selection, !pairing_busy(*pair) && paired),
{
    let busy = match pair {
        PairState::Idle => false,
        _ => true,
    };
    (!busy && has_selection, !busy && paired)
}

// ----- the popup of discovered PCs -----

/// The peer highlighted in the popup.  Row 0 is the placeholder, so row `i`
/// is `shown[i - 1]`; no peer for the placeholder or a row past the list.
pub fn selected_peer(index: isize, shown: &Vec<DiscoveredPeer>) -> (r: Option<DiscoveredPeer>)
    ensures
        match r {
            Some(p) => 1 <= index && index - 1 < shown@.len() && p@ == shown@[index - 1]@,
            None => index < 1 || index - 1 >= shown@.len(),
        },
{
    if index < 1 {
        return None;
    }
    let k = (index - 1) as usize;
    if k < shown.len() {
        Some(shown[k].clone_peer())
    } else {
        None
    }
}

/// The popup row for a discovered PC; one that cannot pair is flagged.
pub open spec fn peer_row_text(p: PeerView) -> Seq<char> {
    let base = p.name + " ("@ + p.host + ")"@;
    if p.pair_port is Some {
        base
    } else {
        base + " \u{2014} needs a newer keyboard-it"@
    }
}

/// The popup row for a discovered PC.
pub fn peer_row(p: &DiscoveredPeer) -> (s: String)
    ensures
        s@ == peer_row_text(p@),
{
    let mut cs: Vec<char> = chars_of(p.name.as_str());
    extend_chars(&mut cs, " (");
    extend_chars(&mut cs, p.host.as_str());
    extend_chars(&mut cs, ")");
    if p.pair_port.is_none() {
        extend_chars(&mut cs, " \u{2014} needs a newer keyboard-it");
    }
    string_from_chars(&cs)
}

/// The popup's rows for a list of peers, and whether the popup is enabled:
/// a disabled "Searching…" placeholder for an empty list, otherwise a
/// "Choose…" placeholder followed by one row per peer.
pub open spec fn popup_rows(peers: Seq<PeerView>) -> (Seq<Seq<char>>, bool) {
    if peers.len() == 0 {
        (seq!["Searching your network\u{2026}"@], false)
    } else {
        (seq!["Choose a discovered PC\u{2026}"@] + peers.map_values(|p: PeerView| peer_row_text(p)), true)
    }
}

/// The popup's rows and whether it is enabled.
pub fn popup_items(peers: &Vec<DiscoveredPeer>) -> (r: (Vec<String>, bool))
    ensures
        (r.0@.map_values(|s: String| s@), r.1) == popup_rows(peers@.map_values(|p: DiscoveredPeer| p@)),
{
    let ghost views = peers@.map_values(|p: DiscoveredPeer| p@);
    let mut rows: Vec<String> = Vec::new();
    if peers.len() == 0 {
        rows.push(string_from_chars(&chars_of("Searching your network\u{2026}")));
        assert(rows@.map_values(|s: String| s@) =~= seq!["Searching your network\u{2026}"@]);
        return (rows, false);
    }
    rows.push(string_from_chars(&chars_of("Choose a discovered PC\u{2026}")));
    let mut i: usize = 0;
    while i < peers.len()
        invariant
            views == peers@.map_values(|p: DiscoveredPeer| p@),
            i <= peers@.len(),
            rows@.map_values(|s: String| s@) == seq!["Choose a discovered PC\u{2026}"@]
                + views.subrange(0, i as int).map_values(|p: PeerView| peer_row_text(p)),
        decreases peers@.len() - i,
    {
        let row = peer_row(&peers[i]);
        let ghost prev = rows@.map_values(|s: String| s@);
        let ghost head = seq!["Choose a discovered PC\u{2026}"@];
        let ghost done = views.subrange(0, i as int).map_values(|p: PeerView| peer_row_text(p));
        assert(views[i as int] == peers@[i as int]@);
        assert(row@ == peer_row_text(views[i as int]));
        rows.push(row);
        assert(rows@.map_values(|s: String| s@) =~= prev.push(row@));
        assert(prev.push(row@) =~= head + done.push(peer_row_text(views[i as int])));
        assert(views.subrange(0, i + 1).map_values(|p: PeerView| peer_row_text(p))
            =~= views.subrange(0, i as int).map_values(|p: PeerView| peer_row_text(p)).push(peer_row_text(views[i as int])));
        assert(rows@.map_values(|s: String| s@) =~= seq!["Choose a discovered PC\u{2026}"@]
            + views.subrange(0, i + 1).map_values(|p: PeerView| peer_row_text(p)));
        i += 1;
    }
    assert(views.subrange(0, peers@.len() as int) =~= views);
    (rows, true)
}

// ----- the popup's order -----

/// `a` sorts no later than `b` in the order strings compare in: character
/// by character by code point (which is the order of their UTF-8 bytes), a
/// proper prefix first.
pub open spec fn text_le(a: Seq<char>, b: Seq<char>) -> bool
    decreases a.len(),
{
    if a.len() == 0 {
        true
    } else if b.len() == 0 {
        false
    } else if a[0] < b[0] {
        true
    } else if a[0] == b[0] {
        text_le(a.drop_first(), b.drop_first())
    } else {
        false
    }
}

/// Any two texts are ordered one way or the other.
pub proof fn lemma_text_le_total(a: Seq<char>, b: Seq<char>)
    ensures
        text_le(a, b) || text_le(b, a),
    decreases a.len(),
{
    if a.len() > 0 && b.len() > 0 {
        if a[0] == b[0] {
            lemma_text_le_total(a.drop_first(), b.drop_first());
        }
    }
}

/// The order is transitive.
pub proof fn lemma_text_le_trans(a: Seq<char>, b: Seq<char>, c: Seq<char>)
    requires
        text_le(a, b),
        text_le(b, c),
    ensures
        text_le(a, c),
    decreases a.len(),
{
    if a.len() > 0 && b.len() > 0 && c.len() > 0 && a[0] == b[0] && b[0] == c[0] {
        lemma_text_le_trans(a.drop_first(), b.drop_first(), c.drop_first());
    }
}

/// The peers' names are in order.
pub open spec fn sorted_by_name(s: Seq<PeerView>) -> bool {
    forall|i: int, j: int| 0 <= i < j < s.len() ==> text_le(s[i].name, s[j].name)
}

proof fn lemma_text_le_from(a: Seq<char>, b: Seq<char>, i: int)
    requires
        0 <= i < a.len(),
        i < b.len(),
    ensures
        text_le(a.subrange(i, a.len() as int), b.subrange(i, b.len() as int)) == (if a[i] < b[i] {
            true
        } else if a[i] == b[i] {
            text_le(a.subrange(i + 1, a.len() as int), b.subrange(i + 1, b.len() as int))
        } else {
            false
        }),
{
    let sa = a.subrange(i, a.len() as int);
    let sb = b.subrange(i, b.len() as int);
    assert(sa.drop_first() =~= a.subrange(i + 1, a.len() as int));
    assert(sb.drop_first() =~= b.subrange(i + 1, b.len() as int));
    assert(sa[0] == a[i]);
    assert(sb[0] == b[i]);
}

/// Compare two names in string order.
fn name_le(a: &String, b: &String) -> (r: bool)
    ensures
        r == text_le(a@, b@),
{
    let x = chars_of(a.as_str());
    let y = chars_of(b.as_str());
    let mut i: usize = 0;
    assert(x@.subrange(0, x@.len() as int) =~= x@);
    assert(y@.subrange(0, y@.len() as int) =~= y@);
    while i < x.len() && i < y.len()
        invariant
            x@ == a@,
            y@ == b@,
            i <= x@.len(),
            i <= y@.len(),
            text_le(a@, b@) == text_le(x@.subrange(i as int, x@.len() as int), y@.subrange(i as int, y@.len() as int)),
        decreases x@.len() - i,
    {
        proof {
            lemma_text_le_from(x@, y@, i as int);
        }
        if x[i] < y[i] {
            return true;
        }
        if x[i] != y[i] {
            return false;
        }
        i += 1;
    }
    let ghost rx = x@.subrange(i as int, x@.len() as int);
    let ghost ry = y@.subrange(i as int, y@.len() as int);
    if i == x.len() {
        assert(rx.len() == 0);
        true
    } else {
        assert(ry.len() == 0);
        false
    }
}

/// How many entries at the front of `s` sort no later than `name`.
pub open spec fn le_prefix_len(s: Seq<PeerView>, name: Seq<char>) -> nat
    decreases s.len(),
{
    if s.len() == 0 || !text_le(s[0].name, name) {
        0
    } else {
        1 + le_prefix_len(s.drop_first(), name)
    }
}

/// `s` with `p` inserted after the leading entries whose names sort no later
/// than its own.
pub open spec fn insert_by_name(s: Seq<PeerView>, p: PeerView) -> Seq<PeerView> {
    s.insert(le_prefix_len(s, p.name) as int, p)
}

/// The peers sorted by name: each, in arrival order, inserted after the
/// entries that sort no later than it, so equal names keep arrival order.
pub open spec fn sorted_insertion(s: Seq<PeerView>) -> Seq<PeerView>
    decreases s.len(),
{
    if s.len() == 0 {
        s
    } else {
        insert_by_name(sorted_insertion(s.drop_last()), s.last())
    }
}

proof fn lemma_le_prefix_len_step(s: Seq<PeerView>, name: Seq<char>, k: int)
    requires
        0 <= k < s.len(),
    ensures
        le_prefix_len(s.subrange(k, s.len() as int), name) == (if text_le(s[k].name, name) {
            1 + le_prefix_len(s.subrange(k + 1, s.len() as int), name)
        } else {
            0
        }),
{
    let t = s.subrange(k, s.len() as int);
    assert(t[0] == s[k]);
    assert(t.drop_first() =~= s.subrange(k + 1, s.len() as int));
}

/// Where a peer named `name` goes in the sorted `out`: after every entry
/// whose name sorts no later than it, so equal names keep their arrival
/// order.
fn insertion_point(out: &Vec<DiscoveredPeer>, name: &String) -> (k: usize)
    requires
        sorted_by_name(out@.map_values(|p: DiscoveredPeer| p@)),
    ensures
        k == le_prefix_len(out@.map_values(|p: DiscoveredPeer| p@), name@),
        k <= out@.len(),
        forall|i: int| 0 <= i < k ==> text_le(#[trigger] out@[i]@.name, name@),
        forall|i: int| k <= i < out@.len() ==> text_le(name@, #[trigger] out@[i]@.name),
{
    let ghost s = out@.map_values(|p: DiscoveredPeer| p@);
    let mut k: usize = 0;
    assert(s.subrange(0, s.len() as int) =~= s);
    while k < out.len()
        invariant
            k <= out@.len(),
            s == out@.map_values(|p: DiscoveredPeer| p@),
            sorted_by_name(s),
            forall|i: int| 0 <= i < k ==> text_le(#[trigger] out@[i]@.name, name@),
            le_prefix_len(s, name@) == k + le_prefix_len(s.subrange(k as int, s.len() as int), name@),
        decreases out@.len() - k,
    {
        proof {
            lemma_le_prefix_len_step(s, name@, k as int);
            assert(s[k as int] == out@[k as int]@);
        }
        if !name_le(&out[k].name, name) {
            proof {
                lemma_text_le_total(out@[k as int]@.name, name@);
                assert forall|i: int| k <= i < out@.len() implies text_le(name@, #[trigger] out@[i]@.name) by {
                    if i > k {
                        assert(s[i] == out@[i]@);
                        lemma_text_le_trans(name@, out@[k as int]@.name, out@[i]@.name);
                    }
                }
            }
            return k;
        }
        k += 1;
    }
    assert(s.subrange(k as int, s.len() as int) =~= Seq::<PeerView>::empty());
    k
}

/// The popup's order: by name, in string order.  Equal names keep the order
/// they came in.
pub fn sort_by_name(peers: &Vec<DiscoveredPeer>) -> (v: Vec<DiscoveredPeer>)
    ensures
        v@.map_values(|p: DiscoveredPeer| p@) == sorted_insertion(peers@.map_values(|p: DiscoveredPeer| p@)),
        sorted_by_name(v@.map_values(|p: DiscoveredPeer| p@)),
        v@.map_values(|p: DiscoveredPeer| p@).to_multiset() == peers@.map_values(|p: DiscoveredPeer| p@).to_multiset(),
{
    let ghost input = peers@.map_values(|p: DiscoveredPeer| p@);
    let mut out: Vec<DiscoveredPeer> = Vec::new();
    let mut i: usize = 0;
    proof {
        assert(out@.map_values(|p: DiscoveredPeer| p@) =~= Seq::<PeerView>::empty());
        assert(input.subrange(0, 0) =~= Seq::<PeerView>::empty());
    }
    while i < peers.len()
        invariant
            i <= peers@.len(),
            input == peers@.map_values(|p: DiscoveredPeer| p@),
            sorted_by_name(out@.map_values(|p: DiscoveredPeer| p@)),
            out@.map_values(|p: DiscoveredPeer| p@).to_multiset() == input.subrange(0, i as int).to_multiset(),
            out@.map_values(|p: DiscoveredPeer| p@) == sorted_insertion(input.subrange(0, i as int)),
        decreases peers@.len() - i,
    {
        let p = peers[i].clone_peer();
        let k = insertion_point(&out, &p.name);
        let ghost before = out@.map_values(|q: DiscoveredPeer| q@);
        let ghost pv = p@;
        out.insert(k, p);
        let ghost after = out@.map_values(|q: DiscoveredPeer| q@);
        proof {
            assert(after =~= before.insert(k as int, pv));
            to_multiset_insert(before, k as int, pv);
            assert(input.subrange(0, i + 1) =~= input.subrange(0, i as int).push(input[i as int]));
            assert(input[i as int] == peers@[i as int]@);
            assert(input.subrange(0, i + 1).drop_last() =~= input.subrange(0, i as int));
            assert(sorted_insertion(input.subrange(0, i + 1)) == insert_by_name(before, pv));
            to_multiset_build(input.subrange(0, i as int), input[i as int]);
            assert forall|a: int, b: int| 0 <= a < b < after.len() implies text_le(after[a].name, after[b].name) by {
                if a < k && b < k {
                    assert(after[a] == before[a] && after[b] == before[b]);
                } else if a < k && b == k {
                    assert(after[a] == before[a]);
                } else if a < k && b > k {
                    assert(after[a] == before[a] && after[b] == before[b - 1]);
                } else if a == k {
                    assert(after[b] == before[b - 1]);
                } else {
                    assert(after[a] == before[a - 1] && after[b] == before[b - 1]);
                }
            }
        }
        i += 1;
    }
    assert(input.subrange(0, peers@.len() as int) =~= input);
    out
}

/// Do two peer lists hold the same peers in the same order?  The popup is
/// rebuilt only when the list changed.
pub fn same_peers(a: &Vec<DiscoveredPeer>, b: &Vec<DiscoveredPeer>) -> (r: bool)
    ensures
        r == (a@.map_values(|p: DiscoveredPeer| p@) == b@.map_values(|p: DiscoveredPeer| p@)),
{
    let ghost va = a@.map_values(|p: DiscoveredPeer| p@);
    let ghost vb = b@.map_values(|p: DiscoveredPeer| p@);
    if a.len() != b.len() {
        assert(va.len() != vb.len());
        return false;
    }
    let mut i: usize = 0;
    while i < a.len()
        invariant
            a@.len() == b@.len(),
            i <= a@.len(),
            va == a@.map_values(|p: DiscoveredPeer| p@),
            vb == b@.map_values(|p: DiscoveredPeer| p@),
            forall|j: int| 0 <= j < i ==> va[j] == vb[j],
        decreases a@.len() - i,
    {
        let x = &a[i];
        let y = &b[i];
        assert(va[i as int] == x@ && vb[i as int] == y@);
        if !(x.fullname == y.fullname && x.name == y.name && x.host == y.host && x.hostname == y.hostname
            && x.port == y.port && x.pair_port == y.pair_port) {
            assert(va[i as int] != vb[i as int]);
            return false;
        }
        i += 1;
    }
    assert(va =~= vb);
    true
}

/// The row holding `title`, if any: the popup keeps the user's selection
/// across a rebuild when it still exists.
pub fn row_with_title(rows: &Vec<String>, title: &str) -> (r: Option<usize>)
    ensures
        match r {
            Some(k) => k < rows@.len() && rows@[k as int]@ == title@
                && forall|j: int| 0 <= j < k ==> (#[trigger] rows@[j])@ != title@,
            None => forall|j: int| 0 <= j < rows@.len() ==> (#[trigger] rows@[j])@ != title@,
        },
{
    let t = string_from_chars(&chars_of(title));
    let mut k: usize = 0;
    while k < rows.len()
        invariant
            k <= rows@.len(),
            t@ == title@,
            forall|j: int| 0 <= j < k ==> (#[trigger] rows@[j])@ != title@,
        decreases rows@.len() - k,
    {
        if rows[k] == t {
            return Some(k);
        }
        k += 1;
    }
    None
}

// ----- the configuration -----

/// The configuration to show: what was read from disk, or the defaults when
/// there is none or it did not parse.
pub fn load_config(read: Option<Config>) -> (c: Config)
    ensures
        match read {
            Some(r) => c == r,
            None => {
                &&& c.shared_secret@ == Seq::<char>::empty()
                &&& c.peer_host@ == Seq::<char>::empty()
                &&& c.peer_ip@ == Seq::<char>::empty()
                &&& c.role == Role::Sender
                &&& c.port == crate::wire::DEFAULT_PORT
            },
        },
{
    match read {
        Some(c) => c,
        None => Config::default(),
    }
}

/// "Paired with DESKTOP-ABC", or "Not paired yet" for an incomplete
/// configuration.
pub fn paired_label(cfg: &Config) -> (s: String)
    ensures
        s@ == (if cfg.shared_secret@.len() > 0 && (cfg.role == Role::Receiver
            || cfg.peer_host@.len() > 0 || cfg.peer_ip@.len() > 0) {
            "Paired with "@ + cfg.peer_host@
        } else {
            "Not paired yet"@
        }),
{
    if cfg.is_complete() {
        concat("Paired with ", cfg.peer_host.as_str())
    } else {
        string_from_chars(&chars_of("Not paired yet"))
    }
}

/// Forget the PC locally: the key and both addresses are cleared, the rest
/// is kept.
pub fn unpair(cfg: &mut Config)
    ensures
        final(cfg).shared_secret@ == Seq::<char>::empty(),
        final(cfg).peer_host@ == Seq::<char>::empty(),
        final(cfg).peer_ip@ == Seq::<char>::empty(),
        final(cfg).role == old(cfg).role,
        final(cfg).port == old(cfg).port,
{
    cfg.shared_secret = String::new();
    cfg.peer_host = String::new();
    cfg.peer_ip = String::new();
}

/// Fold a successful pairing into the configuration: this Mac is the
/// sender, the key and session port come from the PC, the stored host is the
/// PC's `.local` name when it advertised one (it follows the PC to a new
/// address) and its address otherwise, and the address is kept as the
/// fallback.
pub fn apply_pair_outcome(cfg: &mut Config, outcome: &PairOutcome, peer: &DiscoveredPeer)
    ensures
        final(cfg).role == Role::Sender,
        final(cfg).shared_secret@ == outcome.secret@,
        final(cfg).port == outcome.session_port,
        final(cfg).peer_host@ == (if peer.hostname@.len() == 0 { peer.host@ } else { peer.hostname@ }),
        final(cfg).peer_ip@ == peer.host@,
{
    cfg.role = Role::Sender;
    cfg.shared_secret = outcome.secret.clone();
    cfg.port = outcome.session_port;
    cfg.peer_host = if peer.hostname.as_str().is_empty() { peer.host.clone() } else { peer.hostname.clone() };
    cfg.peer_ip = peer.host.clone();
}

// ----- the pairing worker's messages -----

/// Where to dial for pairing ("host:pair_port"), or, for a PC that
/// advertises no pairing port, the message saying it needs an update.
pub fn pair_target(peer: &DiscoveredPeer) -> (r: Result<String, String>)
    ensures
        match peer.pair_port {
            Some(pp) => r matches Ok(a) && a@ == peer.host@ + ":"@ + decimal(pp as nat),
            None => r matches Err(m) && m@ == peer.name@ + " is running an older keyboard-it \u{2014} update it on the PC."@,
        },
{
    match peer.pair_port {
        Some(pp) => {
            let mut cs: Vec<char> = chars_of(peer.host.as_str());
            cs.push(':');
            push_decimal(&mut cs, pp as u64);
            assert(cs@ =~= peer.host@ + ":"@ + decimal(pp as nat)) by {
                reveal_strlit(":");
            }
            Ok(string_from_chars(&cs))
        },
        None => Err(concat(peer.name.as_str(), " is running an older keyboard-it \u{2014} update it on the PC.")),
    }
}

/// "Contacting DESKTOP-ABC…".
pub fn contacting_text(name: &str) -> (s: String)
    ensures
        s@ == "Contacting "@ + name@ + "\u{2026}"@,
{
    concat3("Contacting ", name, "\u{2026}")
}

/// "Confirm on DESKTOP-ABC — code 482 913": what the Mac shows while the PC
/// asks its user.
pub fn confirm_text(name: &str, code: &str) -> (s: String)
    ensures
        s@ == "Confirm on "@ + name@ + " \u{2014} code "@ + code_display_text(code@),
{
    let shown = code_display(code);
    let mut cs: Vec<char> = Vec::new();
    extend_chars(&mut cs, "Confirm on ");
    extend_chars(&mut cs, name);
    extend_chars(&mut cs, " \u{2014} code ");
    extend_chars(&mut cs, shown.as_str());
    assert(cs@ =~= "Confirm on "@ + name@ + " \u{2014} code "@ + code_display_text(code@));
    string_from_chars(&cs)
}

/// "DESKTOP-ABC declined the pairing."
pub fn declined_text(name: &str) -> (s: String)
    ensures
        s@ == name@ + " declined the pairing."@,
{
    concat(name, " declined the pairing.")
}

/// "Paired with DESKTOP-ABC — connecting…"
pub fn paired_text(peer_name: &str) -> (s: String)
    ensures
        s@ == "Paired with "@ + peer_name@ + " \u{2014} connecting\u{2026}"@,
{
    concat3("Paired with ", peer_name, " \u{2014} connecting\u{2026}")
}

/// This Mac's name as shown on the PC: what the system reported, trimmed,
/// or "Mac" when it reported nothing usable.
pub fn friendly_name(reported: Option<&str>) -> (s: String)
    ensures
        s@ == (match reported {
            Some(r) => if trimmed(r@).len() > 0 { trimmed(r@) } else { "Mac"@ },
            None => "Mac"@,
        }),
{
    match reported {
        Some(r) => {
            let t = trim_chars(&chars_of(r));
            if t.len() > 0 {
                string_from_chars(&t)
            } else {
                string_from_chars(&chars_of("Mac"))
            }
        },
        None => string_from_chars(&chars_of("Mac")),
    }
}

}
