//! The capture probe: which input devices are worth listening to, and how
//! captured events are numbered and timed.
use vstd::prelude::*;
use crate::text::{lex_lt, lemma_lex_lt_asymmetric, lemma_lex_lt_transitive, str_lex_lt};
use vstd::multiset::Multiset;

verus! {

/// What the probe learned about one input device.
#[derive(Debug, Clone, PartialEq, Eq)]
pub struct DeviceInfo {
    pub path: String,
    pub name: String,
    /// The device reports `KEY_A`.
    pub has_key_a: bool,
    /// The device reports `REL_X`.
    pub has_rel_x: bool,
    /// The device reports `BTN_LEFT`.
    pub has_btn_left: bool,
}

/// A device, classified by capability rather than by name.
#[derive(Debug, Clone, PartialEq, Eq)]
pub struct Candidate {
    pub path: String,
    pub name: String,
    pub keyboard: bool,
    pub pointer: bool,
}

impl Candidate {
    /// Keyboards and pointers are worth capturing.
    pub fn interesting(&self) -> (r: bool)
        ensures
            r == (self.keyboard || self.pointer),
    {
        self.keyboard || self.pointer
    }
}

/// A device is a keyboard when it has `KEY_A`, a pointer when it has
/// `REL_X` or `BTN_LEFT`.
pub open spec fn classify_spec(d: DeviceInfo) -> (bool, bool) {
    (d.has_key_a, d.has_rel_x || d.has_btn_left)
}

/// Candidates ordered by path: no path comes after a later one.
pub open spec fn sorted_by_path(s: Seq<Candidate>) -> bool {
    forall|i: int, j: int| 0 <= i < j < s.len() ==> !lex_lt((#[trigger] s[j]).path@, (#[trigger] s[i]).path@)
}

/// The candidate a device is classified as.
pub open spec fn classified(d: DeviceInfo) -> Candidate {
    Candidate { path: d.path, name: d.name, keyboard: d.has_key_a, pointer: d.has_rel_x || d.has_btn_left }
}

fn classify(d: &DeviceInfo) -> (c: Candidate)
    ensures
        c == classified(*d),
{
    Candidate {
        path: d.path.clone(),
        name: d.name.clone(),
        keyboard: d.has_key_a,
        pointer: d.has_rel_x || d.has_btn_left,
    }
}

/// `v` in path order.
fn sort_by_path(v: Vec<Candidate>) -> (r: Vec<Candidate>)
    ensures
        r@.to_multiset() == v@.to_multiset(),
        sorted_by_path(r@),
{
    broadcast use vstd::seq_lib::to_multiset_insert, vstd::seq_lib::to_multiset_len, vstd::multiset::group_multiset_axioms, vstd::multiset::lemma_multiset_empty_len;
    let ghost orig = v@;
    let mut v = v;
    let mut r: Vec<Candidate> = Vec::new();
    assert(r@.to_multiset().len() == 0);
    assert(r@.to_multiset() =~= Multiset::<Candidate>::empty());
    while v.len() > 0
        invariant
            r@.to_multiset().add(v@.to_multiset()) == orig.to_multiset(),
            sorted_by_path(r@),
        decreases v@.len(),
    {
        let ghost before_v = v@;
        let c = v.pop().unwrap();
        proof {
            assert(before_v =~= v@.push(c));
            vstd::seq_lib::to_multiset_build(v@, c);
        }
        let mut p: usize = 0;
        while p < r.len() && !str_lex_lt(c.path.as_str(), r[p].path.as_str())
            invariant
                0 <= p <= r@.len(),
                forall|q: int| 0 <= q < p ==> !lex_lt(c.path@, (#[trigger] r@[q]).path@),
            decreases r@.len() - p,
        {
            p = p + 1;
        }
        let ghost old_r = r@;
        let ghost gc = c;
        r.insert(p, c);
        proof {
            vstd::seq_lib::to_multiset_insert(old_r, p as int, gc);
            assert(r@.to_multiset().add(v@.to_multiset()) =~= orig.to_multiset());
            assert forall|a: int, b: int| 0 <= a < b < r@.len() implies !lex_lt((#[trigger] r@[b]).path@, (#[trigger] r@[a]).path@) by {
                if a < p && b == p {
                } else if a < p && b > p {
                    assert(r@[a] == old_r[a] && r@[b] == old_r[b - 1]);
                } else if a == p {
                    assert(lex_lt(gc.path@, old_r[p as int].path@));
                    assert(r@[b] == old_r[b - 1]);
                    if b - 1 > p {
                        assert(!lex_lt(old_r[b - 1].path@, old_r[p as int].path@));
                        if lex_lt(old_r[b - 1].path@, gc.path@) {
                            lemma_lex_lt_transitive(old_r[b - 1].path@, gc.path@, old_r[p as int].path@);
                        }
                    } else {
                        lemma_lex_lt_asymmetric(gc.path@, old_r[p as int].path@);
                    }
                } else if a > p {
                    assert(r@[a] == old_r[a - 1] && r@[b] == old_r[b - 1]);
                } else {
                    assert(r@[a] == old_r[a] && r@[b] == old_r[b]);
                }
            }
        }
    }
    assert(v@.to_multiset().len() == 0);
    assert(v@.to_multiset() =~= Multiset::<Candidate>::empty());
    assert(r@.to_multiset() =~= orig.to_multiset());
    r
}

/// Every enumerated device, classified, in path order.
pub fn candidates(devices: &Vec<DeviceInfo>) -> (r: Vec<Candidate>)
    ensures
        r@.to_multiset() == devices@.map_values(|d: DeviceInfo| classified(d)).to_multiset(),
        sorted_by_path(r@),
{
    let mut cl: Vec<Candidate> = Vec::new();
    let mut k: usize = 0;
    while k < devices.len()
        invariant
            0 <= k <= devices@.len(),
            cl@ == devices@.take(k as int).map_values(|d: DeviceInfo| classified(d)),
        decreases devices@.len() - k,
    {
        cl.push(classify(&devices[k]));
        assert(devices@.take(k + 1).map_values(|d: DeviceInfo| classified(d)) =~= devices@.take(k as int).map_values(
            |d: DeviceInfo| classified(d),
        ).push(classified(devices@[k as int])));
        k = k + 1;
    }
    assert(devices@.take(devices@.len() as int) =~= devices@);
    sort_by_path(cl)
}

/// The paths of the interesting candidates, in order.
pub open spec fn interesting_paths(cs: Seq<Candidate>) -> Seq<Seq<char>>
    decreases cs.len(),
{
    if cs.len() == 0 {
        Seq::empty()
    } else {
        let rest = interesting_paths(cs.drop_last());
        let c = cs.last();
        if c.keyboard || c.pointer {
            rest.push(c.path@)
        } else {
            rest
        }
    }
}

/// The paths of the devices worth capturing, in the order given.
pub fn default_paths(cs: &Vec<Candidate>) -> (r: Vec<String>)
    ensures
        r@.map_values(|s: String| s@) == interesting_paths(cs@),
{
    let mut r: Vec<String> = Vec::new();
    let mut i: usize = 0;
    assert(cs@.take(0) =~= Seq::<Candidate>::empty());
    assert(r@.map_values(|s: String| s@) =~= Seq::<Seq<char>>::empty());
    while i < cs.len()
        invariant
            0 <= i <= cs@.len(),
            r@.map_values(|s: String| s@) == interesting_paths(cs@.take(i as int)),
        decreases cs@.len() - i,
    {
        assert(cs@.take(i + 1).drop_last() =~= cs@.take(i as int));
        if cs[i].interesting() {
            let ghost before = r@;
            r.push(cs[i].path.clone());
            assert(r@.map_values(|s: String| s@) =~= before.map_values(|s: String| s@).push(cs@[i as int].path@));
        }
        i = i + 1;
    }
    assert(cs@.take(cs@.len() as int) =~= cs@);
    r
}

/// How the device list labels a candidate.
pub fn kind_label(c: &Candidate) -> (r: &'static str)
    ensures
        r == (if c.keyboard && c.pointer {
            "kbd+ptr"
        } else if c.keyboard {
            "kbd"
        } else if c.pointer {
            "ptr"
        } else {
            "-"
        }),
{
    if c.keyboard && c.pointer {
        "kbd+ptr"
    } else if c.keyboard {
        "kbd"
    } else if c.pointer {
        "ptr"
    } else {
        "-"
    }
}

/// `n`, or `u64::MAX` when it does not fit.
pub fn saturating_u64(n: u128) -> (r: u64)
    ensures
        r == (if n <= u64::MAX { n as int } else { u64::MAX as int }),
{
    if n <= 18446744073709551615u128 {
        n as u64
    } else {
        18446744073709551615u64
    }
}

/// The wall-clock time of the probe's monotonic zero point, in Unix
/// nanoseconds: the current time less the time since start, not below zero,
/// and `u64::MAX` when it does not fit.
pub fn mono_epoch_unix_ns(now_unix_ns: u128, since_start_ns: u128) -> (r: u64)
    ensures
        ({
            let d: int = if now_unix_ns >= since_start_ns { now_unix_ns - since_start_ns } else { 0 };
            r == (if d <= u64::MAX { d } else { u64::MAX as int })
        }),
{
    let d: u128 = if now_unix_ns >= since_start_ns { now_unix_ns - since_start_ns } else { 0 };
    saturating_u64(d)
}

/// Numbers the captured events the probe writes out, leaving out `EV_SYN`
/// delimiters unless asked to keep them.
pub struct EventNumbering {
    include_syn: bool,
    next_seq: u64,
}

impl EventNumbering {
    pub fn new(include_syn: bool) -> (r: EventNumbering)
        ensures
            r.keeps_syn() == include_syn,
            r.next() == 0,
    {
        EventNumbering { include_syn, next_seq: 0 }
    }

    /// Whether `EV_SYN` delimiters are numbered and written.
    pub closed spec fn keeps_syn(&self) -> bool {
        self.include_syn
    }

    /// The number the next written event gets.
    pub closed spec fn next(&self) -> nat {
        self.next_seq as nat
    }

    /// The number the next written event gets.
    pub fn next_number(&self) -> (r: u64)
        ensures
            r == self.next(),
    {
        self.next_seq
    }

    /// The number of an event of type `ev_type`, or `None` when it is left out.
    /// Written events are numbered 0, 1, 2, ... without gaps.
    pub fn number(&mut self, ev_type: u16) -> (r: Option<u64>)
        requires
            old(self).next() < u64::MAX,
        ensures
            final(self).keeps_syn() == old(self).keeps_syn(),
            (ev_type == crate::proto::EV_SYN && !old(self).keeps_syn()) ==> r is None && final(self).next() == old(
                self,
            ).next(),
            !(ev_type == crate::proto::EV_SYN && !old(self).keeps_syn()) ==> r == Some(old(self).next() as u64)
                && final(self).next() == old(self).next() + 1,
    {
        if ev_type == crate::proto::EV_SYN && !self.include_syn {
            return None;
        }
        let s = self.next_seq;
        self.next_seq = self.next_seq + 1;
        Some(s)
    }
}

} // verus!
