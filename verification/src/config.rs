//! Screen layout configuration and modifier-key remapping.
//!
//! Server side: the server's name and port, and for each client the edge of
//! the server desktop that leads to it, an offset along that edge, and an
//! optional modifier remap. Client side: the server address.
use vstd::prelude::*;
use crate::text::{str_eq, push_decimal, decimal};
use vstd::string::{StrSliceExecFns, StringExecFns};

verus! {

/// Which edge of the server desktop leads to a client.
#[derive(Debug, Clone, Copy, PartialEq, Eq, Structural)]
pub enum Edge {
    Top,
    Bottom,
    Left,
    Right,
}

/// One configured client.
#[derive(Debug, Clone, PartialEq, Eq)]
pub struct ClientEntry {
    /// Must match the name the client sends in its greeting.
    pub name: String,
    /// Which edge of the server screen leads to this client.
    pub edge: Edge,
    /// Pixel offset along the perpendicular axis.
    pub offset: i32,
    /// Modifier remap applied to keys forwarded to this client, as
    /// `(from, to)` modifier names in the order they were read.
    pub modifier_map: Vec<(String, String)>,
}

#[derive(Debug, Clone, PartialEq, Eq)]
pub struct ServerConfig {
    pub name: String,
    /// TCP port to listen on.
    pub port: u16,
}

#[derive(Debug, Clone, PartialEq, Eq)]
pub struct Config {
    pub server: ServerConfig,
    pub clients: Vec<ClientEntry>,
}

/// Client-side configuration: where the server is.
#[derive(Debug, Clone, PartialEq, Eq)]
pub struct ClientConfig {
    /// Server hostname or IP address.
    pub server: String,
    /// Server port.
    pub port: u16,
}

/// The port used when a configuration names none.
pub fn default_port() -> (r: u16)
    ensures
        r == 24800,
{
    24800
}

/// The HID usage code a modifier name stands for, if it names one.
pub open spec fn modifier_hid_of(n: Seq<char>) -> Option<u32> {
    if n == "ctrl_left"@ || n == "control_left"@ {
        Some(0xE0u32)
    } else if n == "ctrl_right"@ || n == "control_right"@ {
        Some(0xE4u32)
    } else if n == "shift_left"@ {
        Some(0xE1u32)
    } else if n == "shift_right"@ {
        Some(0xE5u32)
    } else if n == "alt"@ || n == "alt_left"@ || n == "option"@ || n == "option_left"@ || n
        == "opt"@ || n == "opt_left"@ {
        Some(0xE2u32)
    } else if n == "alt_gr"@ || n == "alt_right"@ || n == "option_right"@ || n == "opt_right"@ {
        Some(0xE6u32)
    } else if n == "meta_left"@ || n == "super"@ || n == "super_left"@ || n == "cmd"@ || n
        == "cmd_left"@ || n == "command"@ || n == "command_left"@ || n == "win"@ || n
        == "win_left"@ || n == "windows"@ || n == "windows_left"@ {
        Some(0xE3u32)
    } else if n == "meta_right"@ || n == "super_right"@ || n == "cmd_right"@ || n
        == "command_right"@ || n == "win_right"@ || n == "windows_right"@ {
        Some(0xE7u32)
    } else {
        None
    }
}

/// Whether `hid` is one of the eight HID modifier usages (0xE0..=0xE7).
pub open spec fn is_modifier_hid(hid: u32) -> bool {
    0xE0 <= hid <= 0xE7
}

/// Map a modifier key name to its USB HID usage code (page 0x07).
///
/// Canonical names are `<key>_left` / `<key>_right`; aliases such as `super`,
/// `cmd`, `win`, `option`, `opt` and `alt_gr` are accepted too.
pub fn modifier_name_to_hid(name: &str) -> (r: Option<u32>)
    ensures
        r == modifier_hid_of(name@),
{
    if str_eq(name, "ctrl_left") || str_eq(name, "control_left") {
        Some(0xE0)
    } else if str_eq(name, "ctrl_right") || str_eq(name, "control_right") {
        Some(0xE4)
    } else if str_eq(name, "shift_left") {
        Some(0xE1)
    } else if str_eq(name, "shift_right") {
        Some(0xE5)
    } else if str_eq(name, "alt") || str_eq(name, "alt_left") || str_eq(name, "option")
        || str_eq(name, "option_left") || str_eq(name, "opt") || str_eq(name, "opt_left") {
        Some(0xE2)
    } else if str_eq(name, "alt_gr") || str_eq(name, "alt_right") || str_eq(name, "option_right")
        || str_eq(name, "opt_right") {
        Some(0xE6)
    } else if str_eq(name, "meta_left") || str_eq(name, "super") || str_eq(name, "super_left")
        || str_eq(name, "cmd") || str_eq(name, "cmd_left") || str_eq(name, "command") || str_eq(
        name,
        "command_left",
    ) || str_eq(name, "win") || str_eq(name, "win_left") || str_eq(name, "windows") || str_eq(
        name,
        "windows_left",
    ) {
        Some(0xE3)
    } else if str_eq(name, "meta_right") || str_eq(name, "super_right") || str_eq(name, "cmd_right")
        || str_eq(name, "command_right") || str_eq(name, "win_right") || str_eq(
        name,
        "windows_right",
    ) {
        Some(0xE7)
    } else {
        None
    }
}

/// The remap a modifier map applies to `hid`: the target of the first entry
/// whose source names `hid` and whose target is a known modifier name, or
/// `hid` itself when no entry applies.
pub open spec fn remap_spec(m: Seq<(String, String)>, hid: u32) -> u32
    decreases m.len(),
{
    if m.len() == 0 {
        hid
    } else if modifier_hid_of(m[0].0@) == Some(hid) && modifier_hid_of(m[0].1@) is Some {
        modifier_hid_of(m[0].1@)->0
    } else {
        remap_spec(m.drop_first(), hid)
    }
}

/// Apply a client's modifier map to a HID keycode.
/// Returns the remapped code, or `hid` itself if no entry applies.
pub fn remap_modifier_key(map: &Vec<(String, String)>, hid: u32) -> (r: u32)
    ensures
        r == remap_spec(map@, hid),
{
    let mut i: usize = 0;
    assert(map@.skip(0) =~= map@);
    while i < map.len()
        invariant
            0 <= i <= map@.len(),
            remap_spec(map@, hid) == remap_spec(map@.skip(i as int), hid),
        decreases map@.len() - i,
    {
        assert(map@.skip(i as int).drop_first() =~= map@.skip(i + 1));
        assert(map@.skip(i as int)[0] == map@[i as int]);
        if modifier_name_to_hid(map[i].0.as_str()) == Some(hid) {
            if let Some(to) = modifier_name_to_hid(map[i].1.as_str()) {
                return to;
            }
        }
        i = i + 1;
    }
    assert(map@.skip(i as int).len() == 0);
    hid
}

/// A remap only ever yields the key itself or one of the eight modifier usages.
pub proof fn lemma_remap_result(m: Seq<(String, String)>, hid: u32)
    ensures
        remap_spec(m, hid) == hid || is_modifier_hid(remap_spec(m, hid)),
    decreases m.len(),
{
    if m.len() > 0 {
        lemma_remap_result(m.drop_first(), hid);
    }
}

/// A key that is not a modifier passes through every modifier map unchanged.
pub proof fn lemma_remap_non_modifier(m: Seq<(String, String)>, hid: u32)
    requires
        !is_modifier_hid(hid),
    ensures
        remap_spec(m, hid) == hid,
    decreases m.len(),
{
    if m.len() > 0 {
        lemma_remap_non_modifier(m.drop_first(), hid);
    }
}

/// Only keys named as a source are remapped. A key that no entry names as
/// its source passes through unchanged; and when a key is changed, some
/// entry names it as the source and names the result as the target.
pub proof fn lemma_remap_only_from_sources(m: Seq<(String, String)>, hid: u32)
    ensures
        (forall|i: int| 0 <= i < m.len() ==> modifier_hid_of((#[trigger] m[i]).0@) != Some(hid)) ==> remap_spec(m, hid)
            == hid,
        remap_spec(m, hid) != hid ==> exists|i: int|
            0 <= i < m.len() && modifier_hid_of((#[trigger] m[i]).0@) == Some(hid) && modifier_hid_of(m[i].1@) == Some(
                remap_spec(m, hid),
            ),
    decreases m.len(),
{
    if m.len() > 0 {
        let rest = m.drop_first();
        lemma_remap_only_from_sources(rest, hid);
        if forall|i: int| 0 <= i < m.len() ==> modifier_hid_of((#[trigger] m[i]).0@) != Some(hid) {
            assert(modifier_hid_of(m[0].0@) != Some(hid));
            assert forall|i: int| 0 <= i < rest.len() implies modifier_hid_of((#[trigger] rest[i]).0@) != Some(hid) by {
                assert(rest[i] == m[i + 1]);
            }
        }
        if remap_spec(m, hid) != hid {
            if !(modifier_hid_of(m[0].0@) == Some(hid) && modifier_hid_of(m[0].1@) is Some) {
                let j = choose|j: int|
                    0 <= j < rest.len() && modifier_hid_of((#[trigger] rest[j]).0@) == Some(hid) && modifier_hid_of(
                        rest[j].1@,
                    ) == Some(remap_spec(rest, hid));
                assert(rest[j] == m[j + 1]);
            }
        }
    }
}

/// The remap of a key is the target of the first entry that names it as its
/// source and has a known target: the entries before it do not apply.
pub proof fn lemma_remap_first_applicable_entry(m: Seq<(String, String)>, hid: u32, i: int, to: u32)
    requires
        0 <= i < m.len(),
        modifier_hid_of(m[i].0@) == Some(hid),
        modifier_hid_of(m[i].1@) == Some(to),
        forall|j: int| 0 <= j < i ==> !(modifier_hid_of((#[trigger] m[j]).0@) == Some(hid) && modifier_hid_of(m[j].1@) is Some),
    ensures
        remap_spec(m, hid) == to,
    decreases i,
{
    if i > 0 {
        let rest = m.drop_first();
        assert(!(modifier_hid_of(m[0].0@) == Some(hid) && modifier_hid_of(m[0].1@) is Some));
        assert(rest[i - 1] == m[i]);
        assert forall|j: int| 0 <= j < i - 1 implies !(modifier_hid_of((#[trigger] rest[j]).0@) == Some(hid)
            && modifier_hid_of(rest[j].1@) is Some) by {
            assert(rest[j] == m[j + 1]);
        }
        lemma_remap_first_applicable_entry(rest, hid, i - 1, to);
    }
}

/// A name in a modifier map that is not a recognised modifier name.
#[derive(Debug, Clone, PartialEq, Eq)]
pub enum ModifierNameWarning {
    /// The entry's key is unknown, so the entry is ignored.
    UnknownKey { from: String },
    /// The entry's value is unknown, so the key passes through unmapped.
    UnknownValue { from: String, to: String },
}

/// The warnings one map entry produces, key first.
pub open spec fn entry_warnings(e: (String, String)) -> Seq<ModifierNameWarning> {
    (if modifier_hid_of(e.0@) is None {
        seq![ModifierNameWarning::UnknownKey { from: e.0 }]
    } else {
        Seq::empty()
    }) + (if modifier_hid_of(e.1@) is None {
        seq![ModifierNameWarning::UnknownValue { from: e.0, to: e.1 }]
    } else {
        Seq::empty()
    })
}

/// The warnings a whole map produces, entry by entry in map order.
pub open spec fn map_warnings(m: Seq<(String, String)>) -> Seq<ModifierNameWarning>
    decreases m.len(),
{
    if m.len() == 0 {
        Seq::empty()
    } else {
        map_warnings(m.drop_last()) + entry_warnings(m.last())
    }
}

/// Every name (key or value) in a modifier map that `modifier_name_to_hid`
/// does not recognise, so the caller can report it: an unknown key makes its
/// entry ignored, an unknown value makes the key pass through unmapped.
pub fn warn_unknown_modifier_names(map: &Vec<(String, String)>) -> (r: Vec<ModifierNameWarning>)
    ensures
        r@ == map_warnings(map@),
{
    let mut out: Vec<ModifierNameWarning> = Vec::new();
    let mut i: usize = 0;
    while i < map.len()
        invariant
            0 <= i <= map@.len(),
            out@ == map_warnings(map@.take(i as int)),
        decreases map@.len() - i,
    {
        let ghost before = out@;
        assert(map@.take(i + 1).drop_last() =~= map@.take(i as int));
        assert(map@.take(i + 1).last() == map@[i as int]);
        let from = &map[i].0;
        let to = &map[i].1;
        if modifier_name_to_hid(from.as_str()).is_none() {
            out.push(ModifierNameWarning::UnknownKey { from: from.clone() });
        }
        if modifier_name_to_hid(to.as_str()).is_none() {
            out.push(ModifierNameWarning::UnknownValue { from: from.clone(), to: to.clone() });
        }
        assert(out@ =~= before + entry_warnings(map@[i as int]));
        i = i + 1;
    }
    assert(map@.take(map@.len() as int) =~= map@);
    out
}

/// `w` is one of the warnings map entry `e` produces.
pub open spec fn warns_about(w: ModifierNameWarning, e: (String, String)) -> bool {
    ||| (w == ModifierNameWarning::UnknownKey { from: e.0 } && modifier_hid_of(e.0@) is None)
    ||| (w == ModifierNameWarning::UnknownValue { from: e.0, to: e.1 } && modifier_hid_of(e.1@) is None)
}

/// The key a warning names.
pub open spec fn warned_key(w: ModifierNameWarning) -> String {
    match w {
        ModifierNameWarning::UnknownKey { from } => from,
        ModifierNameWarning::UnknownValue { from, .. } => from,
    }
}

/// In a map whose keys are distinct, every unknown name is warned about
/// exactly once: the warnings have no repeats, and a warning is given
/// exactly when some entry's key (or value) is not a modifier name.
pub proof fn lemma_each_unknown_name_warned_once(m: Seq<(String, String)>)
    requires
        forall|i: int, j: int| 0 <= i < j < m.len() ==> (#[trigger] m[i]).0@ != (#[trigger] m[j]).0@,
    ensures
        map_warnings(m).no_duplicates(),
        forall|w: ModifierNameWarning|
            map_warnings(m).contains(w) <==> exists|i: int| 0 <= i < m.len() && #[trigger] warns_about(w, m[i]),
    decreases m.len(),
{
    if m.len() > 0 {
        let p = m.drop_last();
        let e = m.last();
        assert forall|i: int, j: int| 0 <= i < j < p.len() implies (#[trigger] p[i]).0@ != (#[trigger] p[j]).0@ by {
            assert(p[i] == m[i] && p[j] == m[j]);
        }
        lemma_each_unknown_name_warned_once(p);
        let wp = map_warnings(p);
        let we = entry_warnings(e);
        assert(map_warnings(m) == wp + we);
        // Warnings of earlier entries name earlier keys.
        assert forall|w: ModifierNameWarning| wp.contains(w) implies warned_key(w)@ != e.0@ by {
            let i = choose|i: int| 0 <= i < p.len() && #[trigger] warns_about(w, p[i]);
            assert(p[i] == m[i]);
            assert(m[i].0@ != m[m.len() - 1].0@);
        }
        assert forall|x: int, y: int| 0 <= x < y < (wp + we).len() implies (wp + we)[x] != (wp + we)[y] by {
            if y >= wp.len() && x < wp.len() {
                assert(wp.contains(wp[x]));
                assert(warned_key(we[y - wp.len()]) == e.0);
            }
        }
        assert forall|w: ModifierNameWarning|
            map_warnings(m).contains(w) <==> exists|i: int| 0 <= i < m.len() && #[trigger] warns_about(w, m[i]) by {
            if map_warnings(m).contains(w) {
                let k = choose|k: int| 0 <= k < (wp + we).len() && (wp + we)[k] == w;
                if k < wp.len() {
                    assert(wp.contains(w));
                    let i = choose|i: int| 0 <= i < p.len() && #[trigger] warns_about(w, p[i]);
                    assert(p[i] == m[i]);
                } else {
                    assert(warns_about(w, m[m.len() - 1]));
                }
            }
            if exists|i: int| 0 <= i < m.len() && #[trigger] warns_about(w, m[i]) {
                let i = choose|i: int| 0 <= i < m.len() && #[trigger] warns_about(w, m[i]);
                if i < m.len() - 1 {
                    assert(p[i] == m[i]);
                    assert(wp.contains(w));
                    let k = choose|k: int| 0 <= k < wp.len() && wp[k] == w;
                    assert((wp + we)[k] == w);
                } else {
                    assert(m[i] == e);
                    let k: int = if modifier_hid_of(e.0@) is None && w != (ModifierNameWarning::UnknownKey {
                        from: e.0,
                    }) {
                        1
                    } else {
                        0
                    };
                    assert(we[k] == w);
                    assert((wp + we)[wp.len() + k] == w);
                }
            }
        }
    }
}

/// A modifier map written out for the log: each entry as `from->to`,
/// separated by `, `, in map order.
pub open spec fn map_summary(m: Seq<(String, String)>) -> Seq<char>
    decreases m.len(),
{
    if m.len() == 0 {
        Seq::empty()
    } else if m.len() == 1 {
        m[0].0@ + "->"@ + m[0].1@
    } else {
        map_summary(m.drop_last()) + ", "@ + m.last().0@ + "->"@ + m.last().1@
    }
}

/// A modifier map written out for the log.
pub fn modifier_map_summary(map: &Vec<(String, String)>) -> (r: String)
    ensures
        r@ == map_summary(map@),
{
    let mut s = String::new();
    let mut i: usize = 0;
    assert(s@ =~= map_summary(map@.take(0)));
    while i < map.len()
        invariant
            0 <= i <= map@.len(),
            s@ == map_summary(map@.take(i as int)),
        decreases map@.len() - i,
    {
        assert(map@.take(i + 1).drop_last() =~= map@.take(i as int));
        assert(map@.take(i + 1).last() == map@[i as int]);
        if i > 0 {
            s.append(", ");
        }
        s.append(map[i].0.as_str());
        s.append("->");
        s.append(map[i].1.as_str());
        proof {
            if i == 0 {
                assert(map@.take(1)[0] == map@[0]);
                assert(s@ =~= map_summary(map@.take(1)));
            } else {
                assert(s@ =~= map_summary(map@.take(i + 1)));
            }
        }
        i = i + 1;
    }
    assert(map@.take(map@.len() as int) =~= map@);
    s
}

/// What the server logs about one client's modifier map.
#[derive(Debug, Clone, PartialEq, Eq)]
pub struct ModifierMapReport {
    pub client: String,
    pub summary: String,
    pub warnings: Vec<ModifierNameWarning>,
}

/// The reports for clients with a non-empty modifier map, in order: the
/// client's name, its map written out, and the unknown names in it.
pub open spec fn reports_spec(cs: Seq<ClientEntry>) -> Seq<(String, Seq<char>, Seq<ModifierNameWarning>)>
    decreases cs.len(),
{
    if cs.len() == 0 {
        Seq::empty()
    } else {
        let rest = reports_spec(cs.drop_last());
        let c = cs.last();
        if c.modifier_map@.len() > 0 {
            rest.push((c.name, map_summary(c.modifier_map@), map_warnings(c.modifier_map@)))
        } else {
            rest
        }
    }
}

/// `r` is the report `e` describes.
pub open spec fn report_is(r: ModifierMapReport, e: (String, Seq<char>, Seq<ModifierNameWarning>)) -> bool {
    r.client == e.0 && r.summary@ == e.1 && r.warnings@ == e.2
}

/// The log report for every client with a non-empty modifier map, in
/// configuration order.
pub fn log_modifier_maps(config: &Config) -> (r: Vec<ModifierMapReport>)
    ensures
        r@.len() == reports_spec(config.clients@).len(),
        forall|i: int| 0 <= i < r@.len() ==> report_is(#[trigger] r@[i], reports_spec(config.clients@)[i]),
{
    let mut r: Vec<ModifierMapReport> = Vec::new();
    let mut k: usize = 0;
    while k < config.clients.len()
        invariant
            0 <= k <= config.clients@.len(),
            r@.len() == reports_spec(config.clients@.take(k as int)).len(),
            forall|i: int| 0 <= i < r@.len() ==> report_is(#[trigger] r@[i], reports_spec(config.clients@.take(k as int))[i]),
        decreases config.clients@.len() - k,
    {
        assert(config.clients@.take(k + 1).drop_last() =~= config.clients@.take(k as int));
        assert(config.clients@.take(k + 1).last() == config.clients@[k as int]);
        let c = &config.clients[k];
        if c.modifier_map.len() > 0 {
            let ghost before = r@;
            r.push(
                ModifierMapReport {
                    client: c.name.clone(),
                    summary: modifier_map_summary(&c.modifier_map),
                    warnings: warn_unknown_modifier_names(&c.modifier_map),
                },
            );
            proof {
                let sp = reports_spec(config.clients@.take(k + 1));
                assert forall|i: int| 0 <= i < r@.len() implies report_is(#[trigger] r@[i], sp[i]) by {
                    if i < before.len() {
                        assert(r@[i] == before[i]);
                        assert(report_is(before[i], reports_spec(config.clients@.take(k as int))[i]));
                    }
                }
            }
        }
        k = k + 1;
    }
    assert(config.clients@.take(config.clients@.len() as int) =~= config.clients@);
    r
}

/// `a` followed by `sep` and `b`, as a path join does for a relative `b`:
/// no separator is added after an empty base or one that already ends in one.
pub open spec fn join_spec(a: Seq<char>, b: Seq<char>, sep: char) -> Seq<char> {
    if a.len() == 0 {
        b
    } else if a.last() == sep {
        a + b
    } else {
        a.push(sep) + b
    }
}

/// The path of `file` inside the `wayflow` directory of a configuration
/// directory, falling back to `.` when there is none.
pub open spec fn config_file_spec(dir: Option<Seq<char>>, sep: char, file: Seq<char>) -> Seq<char> {
    let base = match dir {
        Some(d) => d,
        None => seq!['.'],
    };
    join_spec(join_spec(base, "wayflow"@, sep), file, sep)
}

pub(crate) fn join_path(a: String, b: &str, sep: char) -> (r: String)
    ensures
        r@ == join_spec(a@, b@, sep),
{
    let mut s = a;
    let n = s.as_str().unicode_len();
    if n == 0 {
        return b.to_owned();
    }
    let last = s.as_str().get_char(n - 1);
    if last != sep {
        s.push(sep);
    }
    s.append(b);
    s
}

/// The text of an optional string.
pub open spec fn opt_view(o: Option<String>) -> Option<Seq<char>> {
    match o {
        Some(d) => Some(d@),
        None => None,
    }
}

/// The path of `file` in the `wayflow` subdirectory of `dir` (or of `.`).
pub fn config_file_path(dir: Option<String>, sep: char, file: &str) -> (r: String)
    ensures
        r@ == config_file_spec(opt_view(dir), sep, file@),
{
    let base = match dir {
        Some(d) => d,
        None => String::from_str("."),
    };
    proof {
        reveal_strlit(".");
        reveal_strlit("wayflow");
    }
    let w = join_path(base, "wayflow", sep);
    join_path(w, file, sep)
}

/// `dirs::config_dir`: the user's configuration directory for this platform,
/// if it has one, as text. It depends on the platform and on environment
/// variables, so nothing is stated of it.
#[verifier::external_body]
fn platform_config_dir() -> (r: Option<String>) {
    dirs::config_dir().map(|p| p.to_string_lossy().into_owned())
}

/// `std::path::MAIN_SEPARATOR`: the platform's path separator. Nothing is
/// stated of which character it is.
#[verifier::external_body]
pub(crate) fn path_separator() -> (r: char) {
    std::path::MAIN_SEPARATOR
}

impl Config {
    /// `<config dir>/wayflow/config.toml`.
    pub fn default_path() -> (r: String)
        ensures
            exists|d: Option<Seq<char>>, sep: char| r@ == config_file_spec(d, sep, "config.toml"@),
    {
        let sep = path_separator();
        let dir = platform_config_dir();
        let ghost gd = opt_view(dir);
        let r = config_file_path(dir, sep, "config.toml");
        assert(r@ == config_file_spec(gd, sep, "config.toml"@));
        r
    }
}

impl ClientConfig {
    /// `<config dir>/wayflow/client.toml`.
    pub fn default_path() -> (r: String)
        ensures
            exists|d: Option<Seq<char>>, sep: char| r@ == config_file_spec(d, sep, "client.toml"@),
    {
        let sep = path_separator();
        let dir = platform_config_dir();
        let ghost gd = opt_view(dir);
        let r = config_file_path(dir, sep, "client.toml");
        assert(r@ == config_file_spec(gd, sep, "client.toml"@));
        r
    }

    /// `server:port`, the address to connect to.
    pub fn server_addr(&self) -> (r: String)
        ensures
            r@ == self.server@ + seq![':'] + decimal(self.port as nat),
    {
        let mut s = self.server.clone();
        s.push(':');
        push_decimal(&mut s, self.port as u64);
        s
    }
}

} // verus!
