//! Deterministic Value Change Dump analysis for the Wokwi generic SPI display probe.
//!
//! A capture is parsed into its declared signals and their level transitions, the bus lines are
//! identified by candidate signal names, and a fixed list of digital properties is measured:
//! clock activity, chip-select and data/command framing, MOSI activity, the reset pulse, the
//! transfer volume, data following a command phase, and the stage ordering. Every activity
//! measurement is taken after the panel reset is released, so the floating-high sample a real
//! capture records at time zero is never mistaken for bus traffic.
//!
//! Nothing analog is claimed: a VCD is a digital event list.

use crate::text::{
    chars_eq, collect_chars, contains_folded, contains_folded_spec, decimal, push_char, push_chars,
    push_decimal, split_tokens, tokens,
};
use vstd::prelude::*;

verus! {

/// A bus line the analysis needs to identify.
#[derive(Debug, Clone, Copy, PartialEq, Eq, PartialOrd, Ord, Structural)]
pub enum Role {
    /// SPI clock.
    Sck,
    /// SPI data out (MCU to panel).
    Mosi,
    /// Chip select.
    Cs,
    /// Data/command select.
    Dc,
    /// Panel reset.
    Reset,
}

/// The candidate signal-name substrings of `role`, most specific first.
pub open spec fn role_candidates(role: Role) -> Seq<&'static str> {
    match role {
        Role::Sck => seq!["lcd:sck", "sck", "sclk", "esp:4", "gpio4"],
        Role::Mosi => seq!["lcd:mosi", "mosi", "sdi", "esp:5", "gpio5"],
        Role::Cs => seq!["lcd:cs", "cs", "esp:6", "gpio6"],
        Role::Dc => seq!["lcd:d/c", "d/c", "dc", "esp:7", "gpio7"],
        Role::Reset => seq!["lcd:rst", "rst", "reset", "esp:10", "gpio10"],
    }
}

impl Role {
    /// Every role the analysis resolves.
    pub const ALL: [Role; 5] = [Role::Sck, Role::Mosi, Role::Cs, Role::Dc, Role::Reset];

    /// Human-readable role name.
    pub fn name(self) -> (n: &'static str)
        ensures
            n == (match self {
                Role::Sck => "sck",
                Role::Mosi => "mosi",
                Role::Cs => "cs",
                Role::Dc => "dc",
                Role::Reset => "reset",
            }),
    {
        match self {
            Role::Sck => "sck",
            Role::Mosi => "mosi",
            Role::Cs => "cs",
            Role::Dc => "dc",
            Role::Reset => "reset",
        }
    }

    /// Candidate signal-name substrings, most specific first.
    ///
    /// Both endpoints of each net are listed because a VCD may name a signal after either the
    /// board pin or the part pin. Matching is case-insensitive.
    pub fn candidates(self) -> (c: &'static [&'static str])
        ensures
            c@ == role_candidates(self),
    {
        match self {
            Role::Sck => &["lcd:sck", "sck", "sclk", "esp:4", "gpio4"],
            Role::Mosi => &["lcd:mosi", "mosi", "sdi", "esp:5", "gpio5"],
            Role::Cs => &["lcd:cs", "cs", "esp:6", "gpio6"],
            Role::Dc => &["lcd:d/c", "d/c", "dc", "esp:7", "gpio7"],
            Role::Reset => &["lcd:rst", "rst", "reset", "esp:10", "gpio10"],
        }
    }
}

/// A single-bit transition: simulation time and new level.
#[derive(Debug, Clone, Copy, PartialEq, Eq, Structural)]
pub struct Transition {
    /// Simulation timestamp in timescale units.
    pub time: u64,
    /// New level (`true` = high). Unknown/high-impedance values are recorded as `false`.
    pub level: bool,
}

/// A parsed VCD: declared signals plus their transitions.
#[derive(Debug)]
pub struct Vcd {
    /// Declared signal names, in declaration order.
    pub signals: Vec<String>,
    /// Transitions per distinct declared signal name, in name order.
    pub transitions: Vec<(String, Vec<Transition>)>,
    /// The `$timescale` value, verbatim, if present.
    pub timescale: Option<String>,
}

/// The characters of each string in `v`.
pub open spec fn strings_view(v: Seq<String>) -> Seq<Seq<char>> {
    v.map_values(|s: String| s@)
}

/// The logical content of a transitions table.
pub open spec fn log_view(v: Seq<(String, Vec<Transition>)>) -> Seq<(Seq<char>, Seq<Transition>)> {
    v.map_values(|p: (String, Vec<Transition>)| (p.0@, p.1@))
}

/// The characters of an optional string.
pub open spec fn opt_view(o: Option<String>) -> Option<Seq<char>> {
    match o {
        Some(s) => Some(s@),
        None => None,
    }
}

/// Whether the keys of an association list are pairwise distinct.
pub open spec fn keys_distinct<V>(l: Seq<(Seq<char>, V)>) -> bool {
    forall|i: int, j: int| 0 <= i < j < l.len() ==> l[i].0 != l[j].0
}

/// Whether `q` is the first position of key `k` in `l`.
pub open spec fn first_key_at<V>(l: Seq<(Seq<char>, V)>, k: Seq<char>, q: int) -> bool {
    &&& 0 <= q < l.len()
    &&& l[q].0 == k
    &&& forall|j: int| 0 <= j < q ==> l[j].0 != k
}

/// The first position of key `k` in `l`, or `-1` when it is absent.
pub open spec fn key_index<V>(l: Seq<(Seq<char>, V)>, k: Seq<char>) -> int {
    if exists|q: int| first_key_at(l, k, q) {
        choose|q: int| first_key_at(l, k, q)
    } else {
        -1
    }
}

/// The transitions recorded for signal `name` (empty when the name has no entry).
pub open spec fn log_lookup(l: Seq<(Seq<char>, Seq<Transition>)>, name: Seq<char>) -> Seq<
    Transition,
> {
    let q = key_index(l, name);
    if q >= 0 {
        l[q].1
    } else {
        seq![]
    }
}

impl Vcd {
    /// The declared signal names.
    pub open spec fn names(&self) -> Seq<Seq<char>> {
        strings_view(self.signals@)
    }

    /// The transitions table as (name, transitions) pairs.
    pub open spec fn log(&self) -> Seq<(Seq<char>, Seq<Transition>)> {
        log_view(self.transitions@)
    }

    /// Well-formedness of a parsed VCD: exactly one table entry per distinct declared name, in
    /// name order.
    pub open spec fn wf(&self) -> bool {
        table_by_name(self.names(), self.log())
    }
}

impl Default for Vcd {
    fn default() -> (v: Self)
        ensures
            v.signals@.len() == 0,
            v.transitions@.len() == 0,
            v.timescale.is_none(),
    {
        Vcd { signals: Vec::new(), transitions: Vec::new(), timescale: None }
    }
}

/// Name order: code point by code point, a proper prefix first (the order of `String`).
pub open spec fn name_lt(a: Seq<char>, b: Seq<char>) -> bool
    decreases a.len(),
{
    if a.len() == 0 {
        b.len() > 0
    } else if b.len() == 0 {
        false
    } else if a[0] == b[0] {
        name_lt(a.drop_first(), b.drop_first())
    } else {
        a[0] < b[0]
    }
}

/// No name comes before itself.
pub proof fn lemma_name_lt_irreflexive(a: Seq<char>)
    ensures
        !name_lt(a, a),
    decreases a.len(),
{
    if a.len() > 0 {
        lemma_name_lt_irreflexive(a.drop_first());
    }
}

/// Of two different names, one comes first.
pub proof fn lemma_name_lt_total(a: Seq<char>, b: Seq<char>)
    requires
        a != b,
    ensures
        name_lt(a, b) || name_lt(b, a),
    decreases a.len(),
{
    if a.len() > 0 && b.len() > 0 && a[0] == b[0] {
        if a.drop_first() == b.drop_first() {
            assert(a =~= seq![a[0]] + a.drop_first());
            assert(b =~= seq![b[0]] + b.drop_first());
        }
        lemma_name_lt_total(a.drop_first(), b.drop_first());
    } else if a.len() == 0 && b.len() == 0 {
        assert(a =~= b);
    }
}

/// Name order is transitive.
pub proof fn lemma_name_lt_trans(a: Seq<char>, b: Seq<char>, c: Seq<char>)
    requires
        name_lt(a, b),
        name_lt(b, c),
    ensures
        name_lt(a, c),
    decreases a.len(),
{
    if a.len() > 0 && b.len() > 0 && c.len() > 0 && a[0] == b[0] && b[0] == c[0] {
        lemma_name_lt_trans(a.drop_first(), b.drop_first(), c.drop_first());
    }
}

/// Whether `a` comes before `b` in name order.
fn name_less(a: &[char], b: &[char]) -> (r: bool)
    ensures
        r == name_lt(a@, b@),
{
    let mut i: usize = 0;
    proof {
        assert(a@.skip(0) =~= a@);
        assert(b@.skip(0) =~= b@);
    }
    while i < a.len() && i < b.len() && a[i] == b[i]
        invariant
            i <= a@.len(),
            i <= b@.len(),
            name_lt(a@, b@) == name_lt(a@.skip(i as int), b@.skip(i as int)),
        decreases a@.len() - i,
    {
        proof {
            assert(a@.skip(i as int).drop_first() =~= a@.skip(i + 1));
            assert(b@.skip(i as int).drop_first() =~= b@.skip(i + 1));
        }
        i = i + 1;
    }
    if i == a.len() {
        i < b.len()
    } else if i == b.len() {
        false
    } else {
        a[i] < b[i]
    }
}

/// The table of a parsed VCD: one entry per distinct declared name, and only those, in name
/// order.
pub open spec fn table_by_name(
    signals: Seq<Seq<char>>,
    log: Seq<(Seq<char>, Seq<Transition>)>,
) -> bool {
    &&& forall|k: int| 0 <= k < signals.len() ==> key_index(log, #[trigger] signals[k]) >= 0
    &&& forall|q: int| 0 <= q < log.len() ==> signals.contains((#[trigger] log[q]).0)
    &&& forall|i: int, j: int|
        0 <= i < j < log.len() ==> name_lt((#[trigger] log[i]).0, (#[trigger] log[j]).0)
}

/// Whether `sorted` holds exactly the entries of `table`, in name order.
pub open spec fn sorted_by_name(
    sorted: Seq<(Seq<char>, Seq<Transition>)>,
    table: Seq<(Seq<char>, Seq<Transition>)>,
) -> bool {
    &&& sorted.len() == table.len()
    &&& forall|e: (Seq<char>, Seq<Transition>)| sorted.contains(e) <==> table.contains(e)
    &&& forall|i: int, j: int|
        0 <= i < j < sorted.len() ==> name_lt((#[trigger] sorted[i]).0, (#[trigger] sorted[j]).0)
}

/// The parser's table, put in name order, is a table by name of its declarations.
proof fn lemma_sorted_table(m: ParseModel, sorted: Seq<(Seq<char>, Seq<Transition>)>)
    requires
        model_wf(m),
        sorted_by_name(sorted, m.log),
    ensures
        table_by_name(m.signals, sorted),
{
    assert forall|k: int| 0 <= k < m.signals.len() implies key_index(
        sorted,
        #[trigger] m.signals[k],
    ) >= 0 by {
        let name = m.signals[k];
        assert(key_index(m.log, name) >= 0);
        let q = choose|q: int| first_key_at(m.log, name, q);
        assert(m.log.contains(m.log[q]));
        assert(sorted.contains(m.log[q]));
        let p = choose|p: int| 0 <= p < sorted.len() && sorted[p] == m.log[q];
        assert forall|j: int| 0 <= j < p implies sorted[j].0 != name by {
            lemma_name_lt_irreflexive(name);
        }
        assert(first_key_at(sorted, name, p));
    }
    assert forall|q: int| 0 <= q < sorted.len() implies m.signals.contains(
        (#[trigger] sorted[q]).0,
    ) by {
        assert(sorted.contains(sorted[q]));
        assert(m.log.contains(sorted[q]));
        let p = choose|p: int| 0 <= p < m.log.len() && m.log[p] == sorted[q];
        assert(m.signals.contains(m.log[p].0));
    }
}

/// Orders a table of distinct names by name, taking the least remaining entry each time.
fn sort_by_name(table: Vec<(String, Vec<Transition>)>) -> (sorted: Vec<(String, Vec<Transition>)>)
    requires
        keys_distinct(log_view(table@)),
    ensures
        sorted_by_name(log_view(sorted@), log_view(table@)),
{
    let ghost orig = log_view(table@);
    let n = table.len();
    let mut rest = table;
    let mut out: Vec<(String, Vec<Transition>)> = Vec::new();
    while rest.len() > 0
        invariant
            log_view(out@).len() + log_view(rest@).len() == orig.len(),
            orig.len() == n,
            keys_distinct(log_view(rest@)),
            forall|e: (Seq<char>, Seq<Transition>)|
                log_view(out@).contains(e) || log_view(rest@).contains(e) <==> orig.contains(e),
            forall|i: int, j: int|
                0 <= i < j < out@.len() ==> name_lt(
                    (#[trigger] log_view(out@)[i]).0,
                    (#[trigger] log_view(out@)[j]).0,
                ),
            forall|i: int, j: int|
                0 <= i < out@.len() && 0 <= j < rest@.len() ==> name_lt(
                    (#[trigger] log_view(out@)[i]).0,
                    (#[trigger] log_view(rest@)[j]).0,
                ),
        decreases rest@.len(),
    {
        let ghost rv = log_view(rest@);
        let ghost ov = log_view(out@);
        let mut mi: usize = 0;
        let mut j: usize = 1;
        let mut best = collect_chars(rest[0].0.as_str());
        proof {
            lemma_name_lt_irreflexive(rv[0].0);
        }
        while j < rest.len()
            invariant
                rv == log_view(rest@),
                1 <= j <= rest@.len(),
                mi < rest@.len(),
                best@ == rv[mi as int].0,
                forall|k: int| 0 <= k < j ==> !name_lt(#[trigger] rv[k].0, rv[mi as int].0),
            decreases rest@.len() - j,
        {
            let cand = collect_chars(rest[j].0.as_str());
            proof {
                assert(cand@ == rv[j as int].0);
            }
            if name_less(cand.as_slice(), best.as_slice()) {
                proof {
                    assert forall|k: int| 0 <= k < j + 1 implies !name_lt(
                        #[trigger] rv[k].0,
                        rv[j as int].0,
                    ) by {
                        if k < j {
                            if name_lt(rv[k].0, rv[j as int].0) {
                                lemma_name_lt_trans(rv[k].0, rv[j as int].0, rv[mi as int].0);
                            }
                        } else {
                            lemma_name_lt_irreflexive(rv[k].0);
                        }
                    }
                }
                mi = j;
                best = cand;
            }
            j = j + 1;
        }
        proof {
            lemma_name_lt_irreflexive(rv[mi as int].0);
        }
        let entry = rest.remove(mi);
        let ghost m = rv[mi as int];
        out.push(entry);
        proof {
            let rv2 = log_view(rest@);
            let ov2 = log_view(out@);
            assert(rv2 =~= rv.remove(mi as int));
            assert(ov2 =~= ov.push(m));
            assert forall|k: int| 0 <= k < rv2.len() implies name_lt(m.0, #[trigger] rv2[k].0) by {
                let k0 = if k < mi {
                    k
                } else {
                    k + 1
                };
                assert(rv2[k] == rv[k0]);
                assert(rv[k0].0 != m.0);
                assert(!name_lt(rv[k0].0, m.0));
                lemma_name_lt_total(rv[k0].0, m.0);
            }
            assert forall|e: (Seq<char>, Seq<Transition>)|
                ov2.contains(e) || rv2.contains(e) <==> orig.contains(e) by {
                if rv.contains(e) {
                    let k = choose|k: int| 0 <= k < rv.len() && rv[k] == e;
                    if k < mi {
                        assert(rv2[k] == e);
                    } else if k > mi {
                        assert(rv2[k - 1] == e);
                    } else {
                        assert(ov2[ov.len() as int] == e);
                    }
                }
                if ov2.contains(e) {
                    let k = choose|k: int| 0 <= k < ov2.len() && ov2[k] == e;
                    if k < ov.len() {
                        assert(ov[k] == e);
                    } else {
                        assert(rv[mi as int] == e);
                    }
                }
                if rv2.contains(e) {
                    let k = choose|k: int| 0 <= k < rv2.len() && rv2[k] == e;
                    if k < mi {
                        assert(rv[k] == e);
                    } else {
                        assert(rv[k + 1] == e);
                    }
                }
                if ov.contains(e) {
                    let k = choose|k: int| 0 <= k < ov.len() && ov[k] == e;
                    assert(ov2[k] == e);
                }
            }
            assert forall|i: int, j2: int| 0 <= i < j2 < ov2.len() implies name_lt(
                (#[trigger] ov2[i]).0,
                (#[trigger] ov2[j2]).0,
            ) by {
                if j2 == ov.len() {
                    assert(ov2[i] == ov[i]);
                    assert(name_lt(ov[i].0, rv[mi as int].0));
                } else {
                    assert(ov2[i] == ov[i] && ov2[j2] == ov[j2]);
                }
            }
            assert forall|i: int, k: int| 0 <= i < ov2.len() && 0 <= k < rv2.len() implies name_lt(
                (#[trigger] ov2[i]).0,
                (#[trigger] rv2[k]).0,
            ) by {
                let k0 = if k < mi {
                    k
                } else {
                    k + 1
                };
                assert(rv2[k] == rv[k0]);
                if i < ov.len() {
                    assert(ov2[i] == ov[i]);
                    assert(name_lt(ov[i].0, rv[k0].0));
                }
            }
            assert forall|a: int, b: int| 0 <= a < b < rv2.len() implies rv2[a].0 != rv2[b].0 by {
                let a0 = if a < mi {
                    a
                } else {
                    a + 1
                };
                let b0 = if b < mi {
                    b
                } else {
                    b + 1
                };
                assert(rv2[a] == rv[a0] && rv2[b] == rv[b0]);
            }
        }
    }
    proof {
        assert(log_view(rest@).len() == 0);
        assert forall|e: (Seq<char>, Seq<Transition>)| log_view(out@).contains(e) <==> orig.contains(
            e,
        ) by {
            if log_view(rest@).contains(e) {
                let k = choose|k: int| 0 <= k < log_view(rest@).len() && log_view(rest@)[k] == e;
            }
        }
    }
    out
}

/// Why parsing or checking failed.
#[derive(Debug, Clone, PartialEq, Eq)]
pub enum VcdError {
    /// The file declared no signals at all (not a usable VCD).
    NoSignals,
    /// `$enddefinitions` never appeared, so the header is truncated.
    TruncatedHeader,
    /// A role could not be matched to any declared signal.
    UnresolvedRole {
        /// The role that could not be resolved.
        role: Role,
        /// Every signal name the file declared, for adapting the candidate list from evidence.
        available: Vec<String>,
    },
}

// ---------------------------------------------------------------------------------------------
// Parsing model
// ---------------------------------------------------------------------------------------------

/// `$var`
pub open spec fn kw_var() -> Seq<char> {
    seq!['$', 'v', 'a', 'r']
}

/// `$end`
pub open spec fn kw_end() -> Seq<char> {
    seq!['$', 'e', 'n', 'd']
}

/// `$timescale`
pub open spec fn kw_timescale() -> Seq<char> {
    seq!['$', 't', 'i', 'm', 'e', 's', 'c', 'a', 'l', 'e']
}

/// `$enddefinitions`
pub open spec fn kw_enddefinitions() -> Seq<char> {
    seq!['$', 'e', 'n', 'd', 'd', 'e', 'f', 'i', 'n', 'i', 't', 'i', 'o', 'n', 's']
}

/// Whether `c` is an ASCII decimal digit.
pub open spec fn is_digit(c: char) -> bool {
    48 <= c as u32 <= 57
}

/// The value of an ASCII decimal digit string.
pub open spec fn digits_value(s: Seq<char>) -> nat
    decreases s.len(),
{
    if s.len() == 0 {
        0
    } else {
        digits_value(s.drop_last()) * 10 + ((s.last() as u32) - 48) as nat
    }
}

/// Whether every character of `d` is an ASCII decimal digit.
pub open spec fn all_digits(d: Seq<char>) -> bool {
    forall|k: int| 0 <= k < d.len() ==> is_digit(#[trigger] d[k])
}

/// `s.parse::<u64>()`: an optional leading `+`, then at least one ASCII digit, and no overflow.
pub open spec fn parse_u64(s: Seq<char>) -> Option<u64> {
    let d = if s.len() > 1 && s[0] == '+' {
        s.drop_first()
    } else {
        s
    };
    if d.len() > 0 && all_digits(d) && digits_value(d) <= u64::MAX {
        Some(digits_value(d) as u64)
    } else {
        None
    }
}

/// The first `$end` token at or after `i`, or the token count when there is none.
pub open spec fn find_end(t: Seq<Seq<char>>, i: int) -> int
    decreases t.len() - i,
{
    if i >= t.len() {
        t.len() as int
    } else if t[i] == kw_end() {
        i
    } else {
        find_end(t, i + 1)
    }
}

/// Words joined with single spaces.
pub open spec fn join_words(parts: Seq<Seq<char>>) -> Seq<char>
    decreases parts.len(),
{
    if parts.len() == 0 {
        seq![]
    } else if parts.len() == 1 {
        parts[0]
    } else {
        join_words(parts.drop_last()) + seq![' '] + parts.last()
    }
}

/// The parser's state between tokens.
pub struct ParseModel {
    /// Declared names, in declaration order.
    pub signals: Seq<Seq<char>>,
    /// Transitions per distinct name, in order of first declaration.
    pub log: Seq<(Seq<char>, Seq<Transition>)>,
    /// The `$timescale` words, if declared.
    pub timescale: Option<Seq<char>>,
    /// Identifier code to position in `log`.
    pub ids: Seq<(Seq<char>, int)>,
    /// The current simulation time.
    pub time: u64,
    /// Still inside the header.
    pub in_defs: bool,
    /// `$enddefinitions` was seen.
    pub saw_end: bool,
}

/// The state before the first token.
pub open spec fn initial_model() -> ParseModel {
    ParseModel {
        signals: seq![],
        log: seq![],
        timescale: None,
        ids: seq![],
        time: 0,
        in_defs: true,
        saw_end: false,
    }
}

/// Whether `k1` was first declared before `k2`: `k1` appears at a position at or before which
/// `k2` never appears.
pub open spec fn declared_before(signals: Seq<Seq<char>>, k1: Seq<char>, k2: Seq<char>) -> bool {
    exists|b: int|
        0 <= b < signals.len() && #[trigger] signals[b] == k1 && forall|c: int|
            0 <= c <= b ==> signals[c] != k2
}

/// The transitions table has exactly one entry per distinct declared name, in order of first
/// declaration.
pub open spec fn table_follows_declarations(
    signals: Seq<Seq<char>>,
    log: Seq<(Seq<char>, Seq<Transition>)>,
) -> bool {
    &&& keys_distinct(log)
    &&& forall|k: int| 0 <= k < signals.len() ==> key_index(log, #[trigger] signals[k]) >= 0
    &&& forall|q: int| 0 <= q < log.len() ==> signals.contains((#[trigger] log[q]).0)
    &&& forall|i: int, j: int|
        0 <= i < j < log.len() ==> declared_before(signals, (#[trigger] log[i]).0, (#[trigger] log[j]).0)
}

/// Internal consistency of the parser's state.
pub open spec fn model_wf(m: ParseModel) -> bool {
    &&& table_follows_declarations(m.signals, m.log)
    &&& keys_distinct(m.ids)
    &&& forall|p: int| 0 <= p < m.ids.len() ==> 0 <= (#[trigger] m.ids[p]).1 < m.log.len()
}

/// A `$var` declaration of `name` under identifier `id`.
pub open spec fn declare(m: ParseModel, id: Seq<char>, name: Seq<char>) -> ParseModel {
    if id.len() > 0 && name.len() > 0 {
        let q = key_index(m.log, name);
        let log = if q >= 0 {
            m.log
        } else {
            m.log.push((name, seq![]))
        };
        let slot = if q >= 0 {
            q
        } else {
            m.log.len() as int
        };
        let p = key_index(m.ids, id);
        let ids = if p >= 0 {
            m.ids.update(p, (id, slot))
        } else {
            m.ids.push((id, slot))
        };
        ParseModel { signals: m.signals.push(name), log, ids, ..m }
    } else {
        m
    }
}

/// A value change of identifier `id` to `level` at the current time.
pub open spec fn record(m: ParseModel, id: Seq<char>, level: bool) -> ParseModel {
    let p = key_index(m.ids, id);
    if p >= 0 {
        let q = m.ids[p].1;
        ParseModel {
            log: m.log.update(
                q,
                (m.log[q].0, m.log[q].1.push(Transition { time: m.time, level })),
            ),
            ..m
        }
    } else {
        m
    }
}

/// Whether `c` starts a scalar value change (`0`, `1`, `x`, `X`, `z`, `Z`).
pub open spec fn is_scalar_value(c: char) -> bool {
    c == '0' || c == '1' || c == 'x' || c == 'X' || c == 'z' || c == 'Z'
}

/// The position after a directive whose arguments end at `e`.
pub open spec fn after(t: Seq<Seq<char>>, e: int) -> int {
    if e < t.len() {
        e + 1
    } else {
        t.len() as int
    }
}

/// Processes the token at `i`: the position of the next unprocessed token and the new state.
pub open spec fn step(t: Seq<Seq<char>>, i: int, m: ParseModel) -> (int, ParseModel) {
    let tk = t[i];
    if m.in_defs {
        if tk == kw_var() {
            let id = if i + 3 < t.len() {
                t[i + 3]
            } else {
                seq![]
            };
            let p = if i + 4 < t.len() {
                i + 4
            } else {
                t.len() as int
            };
            let e = find_end(t, p);
            (after(t, e), declare(m, id, join_words(t.subrange(p, e))))
        } else if tk == kw_timescale() {
            let e = find_end(t, i + 1);
            (after(t, e), ParseModel { timescale: Some(join_words(t.subrange(i + 1, e))), ..m })
        } else if tk == kw_enddefinitions() {
            let e = find_end(t, i + 1);
            (after(t, e), ParseModel { in_defs: false, saw_end: true, ..m })
        } else {
            (i + 1, m)
        }
    } else if tk.len() == 0 {
        (i + 1, m)
    } else if tk[0] == '#' {
        (
            i + 1,
            match parse_u64(tk.drop_first()) {
                Some(v) => ParseModel { time: v, ..m },
                None => m,
            },
        )
    } else if is_scalar_value(tk[0]) {
        let id = tk.drop_first();
        (
            i + 1,
            if id.len() > 0 {
                record(m, id, tk[0] == '1')
            } else {
                m
            },
        )
    } else if tk[0] == 'b' || tk[0] == 'B' {
        if i + 1 < t.len() {
            (i + 2, record(m, t[i + 1], tk.drop_first().contains('1')))
        } else {
            (i + 1, m)
        }
    } else {
        (i + 1, m)
    }
}

/// The state after processing every token from `i` on.
pub open spec fn run(t: Seq<Seq<char>>, i: int, m: ParseModel) -> ParseModel
    decreases t.len() - i,
{
    if 0 <= i < t.len() {
        let (j, m2) = step(t, i, m);
        if j > i {
            run(t, j, m2)
        } else {
            m2
        }
    } else {
        m
    }
}

/// The parser's final state for `text`.
pub open spec fn parsed(text: Seq<char>) -> ParseModel {
    run(tokens(text), 0, initial_model())
}

/// The first `$end` at or after `p` lies between `p` and the token count.
pub proof fn lemma_find_end_bounds(t: Seq<Seq<char>>, p: int)
    requires
        0 <= p <= t.len(),
    ensures
        p <= find_end(t, p) <= t.len(),
    decreases t.len() - p,
{
    if p < t.len() && t[p] != kw_end() {
        lemma_find_end_bounds(t, p + 1);
    }
}

/// Where the `$var` directive at `i` starts its name.
pub open spec fn var_name_start(t: Seq<Seq<char>>, i: int) -> int {
    if i + 4 < t.len() {
        i + 4
    } else {
        t.len() as int
    }
}

/// The header token after the directive or word at `i`: past the `$end` of a `$var` or
/// `$timescale`, otherwise the next one.
pub open spec fn header_next(t: Seq<Seq<char>>, i: int) -> int {
    if t[i] == kw_var() {
        after(t, find_end(t, var_name_start(t, i)))
    } else if t[i] == kw_timescale() {
        after(t, find_end(t, i + 1))
    } else {
        i + 1
    }
}

/// The names of the `$var` declarations from `i` up to the first `$enddefinitions` (or the end
/// of the text), in order, each with a non-empty identifier and name: the name being the words
/// between the identifier and `$end`, joined by single spaces.
pub open spec fn declared_names(t: Seq<Seq<char>>, i: int) -> Seq<Seq<char>>
    decreases t.len() - i,
{
    if 0 <= i < t.len() && t[i] != kw_enddefinitions() {
        proof {
            lemma_find_end_bounds(t, var_name_start(t, i));
            if i + 1 <= t.len() {
                lemma_find_end_bounds(t, i + 1);
            }
        }
        let rest = declared_names(t, header_next(t, i));
        if t[i] == kw_var() {
            let id = if i + 3 < t.len() {
                t[i + 3]
            } else {
                seq![]
            };
            let p = var_name_start(t, i);
            let name = join_words(t.subrange(p, find_end(t, p)));
            if id.len() > 0 && name.len() > 0 {
                seq![name] + rest
            } else {
                rest
            }
        } else {
            rest
        }
    } else {
        seq![]
    }
}

/// Whether a `$enddefinitions` closes the header from `i` on.
pub open spec fn header_closed(t: Seq<Seq<char>>, i: int) -> bool
    decreases t.len() - i,
{
    if 0 <= i < t.len() {
        if t[i] == kw_enddefinitions() {
            true
        } else {
            proof {
                lemma_find_end_bounds(t, var_name_start(t, i));
                lemma_find_end_bounds(t, i + 1);
            }
            header_closed(t, header_next(t, i))
        }
    } else {
        false
    }
}

/// Past the header, the parser declares nothing and the header's status stays.
proof fn lemma_run_after_header(t: Seq<Seq<char>>, i: int, m: ParseModel)
    requires
        !m.in_defs,
    ensures
        run(t, i, m).signals == m.signals,
        run(t, i, m).saw_end == m.saw_end,
    decreases t.len() - i,
{
    if 0 <= i < t.len() {
        let (j, m2) = step(t, i, m);
        assert(j > i);
        assert(m2.signals == m.signals && m2.saw_end == m.saw_end && !m2.in_defs);
        lemma_run_after_header(t, j, m2);
    }
}

/// Inside the header, the parser's names grow by exactly the declarations, and the header is
/// closed exactly when a `$enddefinitions` comes.
proof fn lemma_run_header(t: Seq<Seq<char>>, i: int, m: ParseModel)
    requires
        m.in_defs,
        0 <= i,
    ensures
        run(t, i, m).signals == m.signals + declared_names(t, i),
        run(t, i, m).saw_end == (m.saw_end || header_closed(t, i)),
    decreases t.len() - i,
{
    if i < t.len() {
        let (j, m2) = step(t, i, m);
        lemma_find_end_bounds(t, var_name_start(t, i));
        lemma_find_end_bounds(t, i + 1);
        if t[i] == kw_enddefinitions() {
            lemma_find_end_bounds(t, i + 1);
            assert(j > i);
            lemma_run_after_header(t, j, m2);
            assert(m.signals + declared_names(t, i) =~= m.signals);
        } else {
            assert(j == header_next(t, i));
            assert(j > i);
            assert(m2.in_defs && m2.saw_end == m.saw_end);
            lemma_run_header(t, j, m2);
            if t[i] == kw_var() {
                let id = if i + 3 < t.len() {
                    t[i + 3]
                } else {
                    seq![]
                };
                let p = var_name_start(t, i);
                let name = join_words(t.subrange(p, find_end(t, p)));
                if id.len() > 0 && name.len() > 0 {
                    assert(m2.signals == m.signals.push(name));
                    assert(m.signals.push(name) + declared_names(t, j) =~= m.signals + (seq![name]
                        + declared_names(t, j)));
                } else {
                    assert(m2.signals == m.signals);
                }
            } else {
                assert(m2.signals == m.signals);
            }
        }
    } else {
        assert(m.signals + declared_names(t, i) =~= m.signals);
    }
}

/// The parser's names are exactly the header's declarations, and it saw the end of the header
/// exactly when a `$enddefinitions` closes it.
pub proof fn law_parse_reads_the_header(text: Seq<char>)
    ensures
        parsed(text).signals == declared_names(tokens(text), 0),
        parsed(text).saw_end == header_closed(tokens(text), 0),
{
    lemma_run_header(tokens(text), 0, initial_model());
    assert(initial_model().signals + declared_names(tokens(text), 0) =~= declared_names(
        tokens(text),
        0,
    ));
}

/// A value change on an identifier some `$var` declared appends exactly one transition, at the
/// current time and with the change's level, to the name the identifier was last declared
/// for; every other name's transitions, and the names, stay as they were.
pub proof fn law_declared_change_appends_one_transition(m: ParseModel, id: Seq<char>, level: bool)
    requires
        model_wf(m),
        key_index(m.ids, id) >= 0,
    ensures
        ({
            let q = m.ids[key_index(m.ids, id)].1;
            let m2 = record(m, id, level);
            &&& m2.signals == m.signals
            &&& m2.log.len() == m.log.len()
            &&& m2.log[q] == (m.log[q].0, m.log[q].1.push(Transition { time: m.time, level }))
            &&& forall|r: int| 0 <= r < m.log.len() && r != q ==> #[trigger] m2.log[r] == m.log[r]
        }),
{
}

/// A value change on an identifier no `$var` declared is dropped.
pub proof fn law_undeclared_change_is_dropped(m: ParseModel, id: Seq<char>, level: bool)
    requires
        key_index(m.ids, id) < 0,
    ensures
        record(m, id, level) == m,
{
}

/// Inside the header no value change is recorded: the transitions only grow once
/// `$enddefinitions` has been seen.
pub proof fn law_header_records_no_change(t: Seq<Seq<char>>, i: int, m: ParseModel)
    requires
        m.in_defs,
        0 <= i < t.len(),
    ensures
        step(t, i, m).1.log.len() >= m.log.len(),
        forall|r: int| 0 <= r < m.log.len() ==> #[trigger] step(t, i, m).1.log[r] == m.log[r],
        step(t, i, m).1.time == m.time,
{
}

/// Every token processed advances the position.
pub proof fn lemma_step_advances(t: Seq<Seq<char>>, i: int, m: ParseModel)
    requires
        0 <= i < t.len(),
    ensures
        i < step(t, i, m).0 <= t.len(),
{
    lemma_find_end_bounds(t, var_name_start(t, i));
    lemma_find_end_bounds(t, i + 1);
}

/// The position and state where the header ends: after the `$end` of `$enddefinitions`, or at
/// the end of the text if the header never closes.
pub open spec fn header_state(t: Seq<Seq<char>>, i: int, m: ParseModel) -> (int, ParseModel)
    decreases t.len() - i,
{
    if 0 <= i < t.len() && m.in_defs {
        proof {
            lemma_step_advances(t, i, m);
        }
        header_state(t, step(t, i, m).0, step(t, i, m).1)
    } else {
        (i, m)
    }
}

/// The transitions that the value changes from token `j` on append to table slot `q`, starting
/// at time `time`, with identifiers assigned to slots as `ids` says: one per scalar change
/// `c<id>` (level `c == '1'`) or vector change `b<bits> <id>` (level: some bit is `1`) on an
/// identifier assigned to `q`, at the time of the last `#<time>` before it.
pub open spec fn slot_changes(
    t: Seq<Seq<char>>,
    j: int,
    time: u64,
    ids: Seq<(Seq<char>, int)>,
    q: int,
) -> Seq<Transition>
    decreases t.len() - j,
{
    if 0 <= j < t.len() {
        let tk = t[j];
        if tk.len() == 0 {
            slot_changes(t, j + 1, time, ids, q)
        } else if tk[0] == '#' {
            let time2 = match parse_u64(tk.drop_first()) {
                Some(v) => v,
                None => time,
            };
            slot_changes(t, j + 1, time2, ids, q)
        } else if is_scalar_value(tk[0]) {
            let id = tk.drop_first();
            let p = key_index(ids, id);
            let here = if id.len() > 0 && p >= 0 && ids[p].1 == q {
                seq![Transition { time, level: tk[0] == '1' }]
            } else {
                seq![]
            };
            here + slot_changes(t, j + 1, time, ids, q)
        } else if tk[0] == 'b' || tk[0] == 'B' {
            if j + 1 < t.len() {
                let p = key_index(ids, t[j + 1]);
                let here = if p >= 0 && ids[p].1 == q {
                    seq![Transition { time, level: tk.drop_first().contains('1') }]
                } else {
                    seq![]
                };
                here + slot_changes(t, j + 2, time, ids, q)
            } else {
                slot_changes(t, j + 1, time, ids, q)
            }
        } else {
            slot_changes(t, j + 1, time, ids, q)
        }
    } else {
        seq![]
    }
}

/// Every identifier points at a slot of the table.
pub open spec fn slots_in_range(m: ParseModel) -> bool {
    forall|p: int| 0 <= p < m.ids.len() ==> 0 <= (#[trigger] m.ids[p]).1 < m.log.len()
}

/// No slot of the table holds a transition yet.
pub open spec fn no_transitions(m: ParseModel) -> bool {
    forall|q: int| 0 <= q < m.log.len() ==> (#[trigger] m.log[q]).1 == Seq::<Transition>::empty()
}

/// A key found in a list is at a position of it.
pub proof fn lemma_key_index_bounds<V>(l: Seq<(Seq<char>, V)>, k: Seq<char>)
    ensures
        key_index(l, k) < l.len(),
        key_index(l, k) >= 0 ==> first_key_at(l, k, key_index(l, k)),
{
    if exists|q: int| first_key_at(l, k, q) {
        let c = choose|q: int| first_key_at(l, k, q);
        assert(first_key_at(l, k, c));
    }
}

/// The header records no transition, keeps the time, and leaves every identifier on a slot;
/// the parse goes on from where it ends.
pub proof fn lemma_header_state(t: Seq<Seq<char>>, i: int, m: ParseModel)
    requires
        0 <= i,
        slots_in_range(m),
        no_transitions(m),
    ensures
        ({
            let (e, mh) = header_state(t, i, m);
            &&& run(t, i, m) == run(t, e, mh)
            &&& e >= t.len() || !mh.in_defs
            &&& e >= i
            &&& slots_in_range(mh)
            &&& no_transitions(mh)
            &&& mh.time == m.time
        }),
    decreases t.len() - i,
{
    if i < t.len() && m.in_defs {
        lemma_step_advances(t, i, m);
        let (j, m2) = step(t, i, m);
        if t[i] == kw_var() {
            let id = if i + 3 < t.len() {
                t[i + 3]
            } else {
                seq![]
            };
            let p = var_name_start(t, i);
            let name = join_words(t.subrange(p, find_end(t, p)));
            lemma_key_index_bounds(m.log, name);
            lemma_key_index_bounds(m.ids, id);
            if id.len() > 0 && name.len() > 0 {
                assert forall|k: int| 0 <= k < m2.ids.len() implies 0 <= (#[trigger] m2.ids[k]).1
                    < m2.log.len() by {
                    if k < m.ids.len() && k != key_index(m.ids, id) {
                        assert(m2.ids[k] == m.ids[k]);
                    }
                }
                assert forall|q: int| 0 <= q < m2.log.len() implies (#[trigger] m2.log[q]).1
                    == Seq::<Transition>::empty() by {
                    if q < m.log.len() {
                        assert(m2.log[q] == m.log[q]);
                    }
                }
            }
        }
        lemma_header_state(t, j, m2);
    }
}

/// Each slot of a parsed VCD's table holds exactly the value changes after the header on the
/// identifiers the header assigned to it, in text order, each at the time of the last
/// `#<time>` before it (0 before any): the header records none.
pub proof fn law_parse_transitions(text: Seq<char>)
    ensures
        ({
            let t = tokens(text);
            let (e, mh) = header_state(t, 0, initial_model());
            &&& parsed(text).log.len() == mh.log.len()
            &&& forall|q: int|
                0 <= q < mh.log.len() ==> #[trigger] parsed(text).log[q] == (
                    mh.log[q].0,
                    slot_changes(t, e, 0, mh.ids, q),
                )
        }),
{
    let t = tokens(text);
    lemma_header_state(t, 0, initial_model());
    let (e, mh) = header_state(t, 0, initial_model());
    if !mh.in_defs {
        lemma_body_appends_slot_changes(t, e, mh);
        assert forall|q: int| 0 <= q < mh.log.len() implies #[trigger] parsed(text).log[q] == (
            mh.log[q].0,
            slot_changes(t, e, 0, mh.ids, q),
        ) by {
            assert(mh.log[q].1 + slot_changes(t, e, 0, mh.ids, q) =~= slot_changes(
                t,
                e,
                0,
                mh.ids,
                q,
            ));
        }
    } else {
        assert forall|q: int| 0 <= q < mh.log.len() implies #[trigger] parsed(text).log[q] == (
            mh.log[q].0,
            slot_changes(t, e, 0, mh.ids, q),
        ) by {
            assert(slot_changes(t, e, 0, mh.ids, q) == Seq::<Transition>::empty());
        }
    }
}

/// Past the header, each slot of the table gains exactly its value changes, and nothing else
/// changes: names, slots, identifiers.
pub proof fn lemma_body_appends_slot_changes(t: Seq<Seq<char>>, j: int, m: ParseModel)
    requires
        !m.in_defs,
        slots_in_range(m),
        0 <= j,
    ensures
        run(t, j, m).log.len() == m.log.len(),
        run(t, j, m).ids == m.ids,
        run(t, j, m).signals == m.signals,
        forall|q: int|
            0 <= q < m.log.len() ==> #[trigger] run(t, j, m).log[q] == (
                m.log[q].0,
                m.log[q].1 + slot_changes(t, j, m.time, m.ids, q),
            ),
    decreases t.len() - j,
{
    if j < t.len() {
        let (j2, m2) = step(t, j, m);
        assert(j2 > j);
        let tk = t[j];
        assert(m2.ids == m.ids && m2.signals == m.signals && !m2.in_defs);
        assert(m2.log.len() == m.log.len());
        lemma_body_appends_slot_changes(t, j2, m2);
        assert forall|q: int| 0 <= q < m.log.len() implies #[trigger] run(t, j, m).log[q] == (
            m.log[q].0,
            m.log[q].1 + slot_changes(t, j, m.time, m.ids, q),
        ) by {
            let rest = slot_changes(t, j2, m2.time, m.ids, q);
            assert(run(t, j, m) == run(t, j2, m2));
            if tk.len() > 0 && is_scalar_value(tk[0]) && tk[0] != '#' {
                let id = tk.drop_first();
                let p = key_index(m.ids, id);
                if id.len() > 0 && p >= 0 && m.ids[p].1 == q {
                    assert(m2.log[q].1 == m.log[q].1.push(Transition { time: m.time, level: tk[0] == '1' }));
                    assert(m.log[q].1.push(Transition { time: m.time, level: tk[0] == '1' }) + rest
                        =~= m.log[q].1 + (seq![Transition { time: m.time, level: tk[0] == '1' }]
                        + rest));
                } else {
                    assert(m2.log[q] == m.log[q]);
                    assert(seq![] + rest =~= rest);
                }
            } else if tk.len() > 0 && (tk[0] == 'b' || tk[0] == 'B') && j + 1 < t.len() {
                let p = key_index(m.ids, t[j + 1]);
                let tr = Transition { time: m.time, level: tk.drop_first().contains('1') };
                if p >= 0 && m.ids[p].1 == q {
                    assert(m2.log[q].1 == m.log[q].1.push(tr));
                    assert(m.log[q].1.push(tr) + rest =~= m.log[q].1 + (seq![tr] + rest));
                } else {
                    assert(m2.log[q] == m.log[q]);
                    assert(seq![] + rest =~= rest);
                }
            } else {
                assert(m2.log[q] == m.log[q]);
            }
        }
    } else {
        assert forall|q: int| 0 <= q < m.log.len() implies #[trigger] run(t, j, m).log[q] == (
            m.log[q].0,
            m.log[q].1 + slot_changes(t, j, m.time, m.ids, q),
        ) by {
            assert(m.log[q].1 + seq![] =~= m.log[q].1);
        }
    }
}

/// The characters of each word.
pub open spec fn words_view(v: Seq<Vec<char>>) -> Seq<Seq<char>> {
    v.map_values(|w: Vec<char>| w@)
}

/// The first position holding `k` is its index.
pub proof fn lemma_key_index_at<V>(l: Seq<(Seq<char>, V)>, k: Seq<char>, q: int)
    requires
        first_key_at(l, k, q),
    ensures
        key_index(l, k) == q,
{
    let c = choose|i: int| first_key_at(l, k, i);
    assert(first_key_at(l, k, c));
    if c < q {
        assert(l[c].0 != k);
    } else if c > q {
        assert(l[q].0 != k);
    }
}

/// A key absent from the list has no index.
pub proof fn lemma_key_index_absent<V>(l: Seq<(Seq<char>, V)>, k: Seq<char>)
    requires
        forall|j: int| 0 <= j < l.len() ==> l[j].0 != k,
    ensures
        key_index(l, k) == -1,
{
    assert(!exists|q: int| first_key_at(l, k, q));
}

/// A key present in a list is present, at the same place, in any extension of it.
pub proof fn lemma_key_index_extend<V>(l: Seq<(Seq<char>, V)>, l2: Seq<(Seq<char>, V)>, k: Seq<char>)
    requires
        key_index(l, k) >= 0,
        l.len() <= l2.len(),
        forall|i: int| 0 <= i < l.len() ==> (#[trigger] l2[i]).0 == l[i].0,
    ensures
        key_index(l2, k) == key_index(l, k),
{
    let w = choose|q: int| first_key_at(l, k, q);
    assert(first_key_at(l, k, w));
    assert(first_key_at(l2, k, w));
    lemma_key_index_at(l2, k, w);
}

/// `digits_value` never shrinks when more digits are appended.
pub proof fn lemma_digits_prefix(s: Seq<char>, k: int)
    requires
        0 <= k <= s.len(),
    ensures
        digits_value(s.take(k)) <= digits_value(s),
    decreases s.len(),
{
    if k < s.len() {
        assert(s.drop_last().take(k) =~= s.take(k));
        lemma_digits_prefix(s.drop_last(), k);
    } else {
        assert(s.take(k) =~= s);
    }
}

/// The position of the first `$end` word at or after `i`.
fn find_end_exec(toks: &Vec<Vec<char>>, i: usize) -> (e: usize)
    requires
        i <= toks@.len(),
    ensures
        e as int == find_end(words_view(toks@), i as int),
        i <= e <= toks@.len(),
{
    let ghost t = words_view(toks@);
    let mut j = i;
    while j < toks.len()
        invariant
            i <= j <= toks@.len(),
            t == words_view(toks@),
            find_end(t, j as int) == find_end(t, i as int),
        decreases toks.len() - j,
    {
        if chars_eq(toks[j].as_slice(), &['$', 'e', 'n', 'd']) {
            return j;
        }
        j += 1;
    }
    j
}

/// The words `p..e` joined with single spaces.
fn join_exec(toks: &Vec<Vec<char>>, p: usize, e: usize) -> (s: String)
    requires
        p <= e <= toks@.len(),
    ensures
        s@ == join_words(words_view(toks@).subrange(p as int, e as int)),
{
    let ghost t = words_view(toks@);
    let mut s = String::new();
    let mut k = p;
    while k < e
        invariant
            p <= k <= e <= toks@.len(),
            t == words_view(toks@),
            s@ == join_words(t.subrange(p as int, k as int)),
        decreases e - k,
    {
        let ghost before = s@;
        if k > p {
            push_char(&mut s, ' ');
        }
        push_chars(&mut s, toks[k].as_slice());
        assert(t.subrange(p as int, k + 1).drop_last() =~= t.subrange(p as int, k as int));
        if k == p {
            assert(t.subrange(p as int, k as int) =~= seq![]);
            assert(s@ =~= t[k as int]);
        }
        k += 1;
    }
    s
}

/// A copy of `cs`.
fn copy_chars(cs: &[char]) -> (v: Vec<char>)
    ensures
        v@ == cs@,
{
    let mut v: Vec<char> = Vec::new();
    let mut k: usize = 0;
    while k < cs.len()
        invariant
            0 <= k <= cs@.len(),
            v@ == cs@.take(k as int),
        decreases cs.len() - k,
    {
        v.push(cs[k]);
        assert(cs@.take(k + 1) =~= cs@.take(k as int).push(cs@[k as int]));
        k += 1;
    }
    assert(cs@.take(cs@.len() as int) =~= cs@);
    v
}

/// `cs` without its first character.
fn tail_chars(cs: &[char]) -> (v: Vec<char>)
    requires
        cs@.len() >= 1,
    ensures
        v@ == cs@.drop_first(),
{
    let mut v: Vec<char> = Vec::new();
    let mut k: usize = 1;
    while k < cs.len()
        invariant
            1 <= k <= cs@.len(),
            v@ == cs@.subrange(1, k as int),
        decreases cs.len() - k,
    {
        v.push(cs[k]);
        assert(cs@.subrange(1, k + 1) =~= cs@.subrange(1, k as int).push(cs@[k as int]));
        k += 1;
    }
    assert(cs@.subrange(1, cs@.len() as int) =~= cs@.drop_first());
    v
}

/// Whether any character after the first is `1`.
fn tail_has_one(cs: &[char]) -> (r: bool)
    requires
        cs@.len() >= 1,
    ensures
        r == cs@.drop_first().contains('1'),
{
    let mut k: usize = 1;
    while k < cs.len()
        invariant
            1 <= k <= cs@.len(),
            forall|j: int| 1 <= j < k ==> cs@[j] != '1',
        decreases cs.len() - k,
    {
        if cs[k] == '1' {
            assert(cs@.drop_first()[k - 1] == '1');
            return true;
        }
        k += 1;
    }
    assert forall|j: int| 0 <= j < cs@.drop_first().len() implies cs@.drop_first()[j] != '1' by {
        assert(cs@.drop_first()[j] == cs@[j + 1]);
    }
    false
}

/// The timestamp of a `#<time>` word: `cs[1..].parse::<u64>()`.
fn parse_time(cs: &[char]) -> (r: Option<u64>)
    requires
        cs@.len() >= 1,
    ensures
        r == parse_u64(cs@.drop_first()),
{
    let ghost s = cs@.drop_first();
    let n = cs.len();
    let begin: usize = if n > 2 && cs[1] == '+' {
        2
    } else {
        1
    };
    let ghost d = cs@.subrange(begin as int, n as int);
    assert(d =~= (if s.len() > 1 && s[0] == '+' {
        s.drop_first()
    } else {
        s
    }));
    if begin >= n {
        return None;
    }
    let mut acc: u64 = 0;
    let mut k = begin;
    while k < n
        invariant
            1 <= begin <= k <= n,
            n == cs@.len(),
            s == cs@.drop_first(),
            d == cs@.subrange(begin as int, n as int),
            d == (if s.len() > 1 && s[0] == '+' {
                s.drop_first()
            } else {
                s
            }),
            forall|j: int| begin <= j < k ==> is_digit(#[trigger] cs@[j]),
            acc as nat == digits_value(cs@.subrange(begin as int, k as int)),
        decreases n - k,
    {
        let u = cs[k] as u32;
        if u < 48 || u > 57 {
            assert(d[k - begin] == cs@[k as int]);
            assert(!is_digit(d[k - begin]));
            assert(!all_digits(d));
            assert(parse_u64(s) is None);
            return None;
        }
        let dv = (u - 48) as u64;
        let ghost pre = cs@.subrange(begin as int, k + 1);
        assert(pre.drop_last() =~= cs@.subrange(begin as int, k as int));
        assert(digits_value(pre) == acc * 10 + dv);
        if acc > (u64::MAX - dv) / 10 {
            assert(acc * 10 + dv > u64::MAX) by (nonlinear_arith)
                requires
                    acc > (u64::MAX - dv) / 10,
                    dv <= 9,
            ;
            proof {
                if all_digits(d) {
                    assert(d.take(k + 1 - begin) =~= pre);
                    lemma_digits_prefix(d, k + 1 - begin);
                    assert(digits_value(d) > u64::MAX);
                }
            }
            assert(parse_u64(s) is None);
            return None;
        }
        assert(acc * 10 + dv <= u64::MAX) by (nonlinear_arith)
            requires
                acc <= (u64::MAX - dv) / 10,
                dv <= 9,
        ;
        acc = acc * 10 + dv;
        k += 1;
    }
    assert(cs@.subrange(begin as int, k as int) =~= d);
    assert forall|j: int| 0 <= j < d.len() implies is_digit(#[trigger] d[j]) by {
        assert(d[j] == cs@[begin + j]);
    }
    assert(all_digits(d));
    Some(acc)
}

/// The parser's working state.
struct Builder {
    signals: Vec<String>,
    log: Vec<(String, Vec<Transition>)>,
    timescale: Option<String>,
    ids: Vec<(Vec<char>, usize)>,
    time: u64,
    in_defs: bool,
    saw_end: bool,
}

/// The identifier table as (identifier, table slot) pairs.
pub open spec fn ids_view(v: Seq<(Vec<char>, usize)>) -> Seq<(Seq<char>, int)> {
    v.map_values(|e: (Vec<char>, usize)| (e.0@, e.1 as int))
}

impl Builder {
    spec fn model(&self) -> ParseModel {
        ParseModel {
            signals: strings_view(self.signals@),
            log: log_view(self.log@),
            timescale: opt_view(self.timescale),
            ids: ids_view(self.ids@),
            time: self.time,
            in_defs: self.in_defs,
            saw_end: self.saw_end,
        }
    }

    /// The table slot of signal `name`.
    fn find_name(&self, name: &String) -> (r: Option<usize>)
        requires
            keys_distinct(log_view(self.log@)),
        ensures
            match r {
                Some(q) => q < self.log@.len() && key_index(log_view(self.log@), name@) == q,
                None => key_index(log_view(self.log@), name@) == -1 && forall|j: int|
                    0 <= j < self.log@.len() ==> log_view(self.log@)[j].0 != name@,
            },
    {
        let ghost l = log_view(self.log@);
        let mut q: usize = 0;
        while q < self.log.len()
            invariant
                0 <= q <= self.log@.len(),
                l == log_view(self.log@),
                keys_distinct(l),
                forall|j: int| 0 <= j < q ==> l[j].0 != name@,
            decreases self.log.len() - q,
        {
            if self.log[q].0 == *name {
                proof {
                    lemma_key_index_at(l, name@, q as int);
                }
                return Some(q);
            }
            q += 1;
        }
        proof {
            lemma_key_index_absent(l, name@);
        }
        None
    }

    /// The entry of identifier `id`.
    fn find_id(&self, id: &[char]) -> (r: Option<usize>)
        requires
            keys_distinct(ids_view(self.ids@)),
        ensures
            match r {
                Some(p) => p < self.ids@.len() && key_index(ids_view(self.ids@), id@) == p,
                None => key_index(ids_view(self.ids@), id@) == -1 && forall|j: int|
                    0 <= j < self.ids@.len() ==> ids_view(self.ids@)[j].0 != id@,
            },
    {
        let ghost l = ids_view(self.ids@);
        let mut p: usize = 0;
        while p < self.ids.len()
            invariant
                0 <= p <= self.ids@.len(),
                l == ids_view(self.ids@),
                keys_distinct(l),
                forall|j: int| 0 <= j < p ==> l[j].0 != id@,
            decreases self.ids.len() - p,
        {
            if chars_eq(self.ids[p].0.as_slice(), id) {
                proof {
                    lemma_key_index_at(l, id@, p as int);
                }
                return Some(p);
            }
            p += 1;
        }
        proof {
            lemma_key_index_absent(l, id@);
        }
        None
    }

    /// Registers a `$var` declaration.
    fn declare_exec(&mut self, id: Vec<char>, name: String)
        requires
            model_wf(old(self).model()),
        ensures
            final(self).model() == declare(old(self).model(), id@, name@),
            model_wf(final(self).model()),
    {
        if id.len() == 0 || name.as_str().is_empty() {
            return;
        }
        let ghost m = self.model();
        let slot = match self.find_name(&name) {
            Some(q) => q,
            None => {
                let q = self.log.len();
                self.log.push((name.clone(), Vec::new()));
                assert(log_view(self.log@) =~= m.log.push((name@, seq![])));
                q
            },
        };
        let ghost log2 = log_view(self.log@);
        assert(ids_view(self.ids@) == m.ids);
        let found = self.find_id(id.as_slice());
        let ghost id_v = id@;
        match found {
            Some(p) => {
                self.ids.set(p, (id, slot));
                assert(ids_view(self.ids@) =~= m.ids.update(p as int, (id_v, slot as int)));
            },
            None => {
                self.ids.push((id, slot));
                assert(ids_view(self.ids@) =~= m.ids.push((id_v, slot as int)));
            },
        }
        let ghost name_v = name@;
        self.signals.push(name);
        assert(strings_view(self.signals@) =~= m.signals.push(name_v));
        let ghost m2 = self.model();
        assert(m2 == declare(m, id_v, name_v));
        proof {
            // The table keeps its old keys in place, so every earlier name is still found.
            assert forall|k: int| 0 <= k < m2.signals.len() implies key_index(
                m2.log,
                #[trigger] m2.signals[k],
            ) >= 0 by {
                if k < m.signals.len() {
                    assert(m2.signals[k] == m.signals[k]);
                    lemma_key_index_extend(m.log, m2.log, m.signals[k]);
                } else {
                    assert(m2.log[slot as int].0 == name_v);
                    assert(exists|q: int| first_key_at(m2.log, name_v, q)) by {
                        if key_index(m.log, name_v) >= 0 {
                            lemma_key_index_extend(m.log, m2.log, name_v);
                        } else {
                            assert(first_key_at(m2.log, name_v, slot as int));
                        }
                    }
                }
            }
            assert forall|i: int, j: int| 0 <= i < j < m2.log.len() implies m2.log[i].0
                != m2.log[j].0 by {
                if j >= m.log.len() {
                    assert(m2.log[i].0 == m.log[i].0);
                }
            }
            assert forall|i: int, j: int| 0 <= i < j < m2.ids.len() implies m2.ids[i].0
                != m2.ids[j].0 by {
                if j >= m.ids.len() {
                    assert(m2.ids[i].0 == m.ids[i].0);
                } else {
                    assert(m2.ids[i].0 == m.ids[i].0);
                    assert(m2.ids[j].0 == m.ids[j].0);
                }
            }
            // Every key of the table is a declared name.
            assert forall|q: int| 0 <= q < m2.log.len() implies m2.signals.contains(
                (#[trigger] m2.log[q]).0,
            ) by {
                if q < m.log.len() {
                    assert(m2.log[q].0 == m.log[q].0);
                    let w = choose|w: int| 0 <= w < m.signals.len() && m.signals[w] == m.log[q].0;
                    assert(m2.signals[w] == m.signals[w]);
                } else {
                    assert(m2.log[q].0 == name_v);
                    assert(m2.signals[m.signals.len() as int] == name_v);
                }
            }
            // Keys keep the order in which their names were first declared.
            assert forall|i: int, j: int| 0 <= i < j < m2.log.len() implies declared_before(
                m2.signals,
                (#[trigger] m2.log[i]).0,
                (#[trigger] m2.log[j]).0,
            ) by {
                assert(m2.log[i].0 == m.log[i].0);
                if j < m.log.len() {
                    assert(m2.log[j].0 == m.log[j].0);
                    assert(declared_before(m.signals, m.log[i].0, m.log[j].0));
                    let b = choose|b: int|
                        0 <= b < m.signals.len() && #[trigger] m.signals[b] == m.log[i].0
                            && forall|c: int| 0 <= c <= b ==> m.signals[c] != m.log[j].0;
                    assert(m2.signals[b] == m.signals[b]);
                    assert forall|c: int| 0 <= c <= b implies m2.signals[c] != m2.log[j].0 by {
                        assert(m2.signals[c] == m.signals[c]);
                    }
                } else {
                    // The new key is a name that no earlier declaration used.
                    assert(key_index(m.log, name_v) < 0);
                    assert(m2.log[j].0 == name_v);
                    assert(m.signals.contains(m.log[i].0));
                    let b = choose|b: int| 0 <= b < m.signals.len() && m.signals[b] == m.log[i].0;
                    assert(m2.signals[b] == m.signals[b]);
                    assert forall|c: int| 0 <= c <= b implies m2.signals[c] != name_v by {
                        assert(m2.signals[c] == m.signals[c]);
                        assert(key_index(m.log, m.signals[c]) >= 0);
                    }
                }
            }
        }
    }

    /// Records a value change of identifier `id`.
    fn record_exec(&mut self, id: &[char], level: bool)
        requires
            model_wf(old(self).model()),
        ensures
            final(self).model() == record(old(self).model(), id@, level),
            model_wf(final(self).model()),
    {
        let ghost m = self.model();
        match self.find_id(id) {
            Some(p) => {
                let q = self.ids[p].1;
                assert(m.ids[p as int].1 == q as int);
                let tr = Transition { time: self.time, level };
                self.log[q].1.push(tr);
                assert(log_view(self.log@) =~= m.log.update(
                    q as int,
                    (m.log[q as int].0, m.log[q as int].1.push(tr)),
                ));
                let ghost m2 = self.model();
                assert forall|k: int| 0 <= k < m2.signals.len() implies key_index(
                    m2.log,
                    #[trigger] m2.signals[k],
                ) >= 0 by {
                    lemma_key_index_extend(m.log, m2.log, m.signals[k]);
                }
                assert forall|i: int, j: int| 0 <= i < j < m2.log.len() implies m2.log[i].0
                    != m2.log[j].0 by {
                    assert(m2.log[i].0 == m.log[i].0);
                    assert(m2.log[j].0 == m.log[j].0);
                }
                assert forall|q: int| 0 <= q < m2.log.len() implies m2.signals.contains(
                    (#[trigger] m2.log[q]).0,
                ) by {
                    assert(m2.log[q].0 == m.log[q].0);
                }
                assert forall|i: int, j: int| 0 <= i < j < m2.log.len() implies declared_before(
                    m2.signals,
                    (#[trigger] m2.log[i]).0,
                    (#[trigger] m2.log[j]).0,
                ) by {
                    assert(m2.log[i].0 == m.log[i].0);
                    assert(m2.log[j].0 == m.log[j].0);
                }
            },
            None => {},
        }
    }
}

impl Builder {
    /// Processes the word at `i`, returning the position of the next unprocessed word.
    fn step_exec(&mut self, toks: &Vec<Vec<char>>, i: usize) -> (j: usize)
        requires
            i < toks@.len(),
            model_wf(old(self).model()),
        ensures
            (j as int, final(self).model()) == step(words_view(toks@), i as int, old(self).model()),
            model_wf(final(self).model()),
            i < j <= toks@.len(),
    {
        let ghost t = words_view(toks@);
        let ghost m = self.model();
        let len = toks.len();
        let tk = toks[i].as_slice();
        assert(tk@ == t[i as int]);
        if self.in_defs {
            if chars_eq(tk, &['$', 'v', 'a', 'r']) {
                let id = if len > 3 && i < len - 3 {
                    copy_chars(toks[i + 3].as_slice())
                } else {
                    Vec::new()
                };
                let p = if len > 4 && i < len - 4 {
                    i + 4
                } else {
                    len
                };
                let e = find_end_exec(toks, p);
                let name = join_exec(toks, p, e);
                assert(id@ == (if i + 3 < t.len() {
                    t[i + 3]
                } else {
                    seq![]
                }));
                self.declare_exec(id, name);
                if e < len {
                    e + 1
                } else {
                    len
                }
            } else if chars_eq(tk, &['$', 't', 'i', 'm', 'e', 's', 'c', 'a', 'l', 'e']) {
                let e = find_end_exec(toks, i + 1);
                let words = join_exec(toks, i + 1, e);
                self.timescale = Some(words);
                if e < len {
                    e + 1
                } else {
                    len
                }
            } else if chars_eq(
                tk,
                &['$', 'e', 'n', 'd', 'd', 'e', 'f', 'i', 'n', 'i', 't', 'i', 'o', 'n', 's'],
            ) {
                let e = find_end_exec(toks, i + 1);
                self.in_defs = false;
                self.saw_end = true;
                if e < len {
                    e + 1
                } else {
                    len
                }
            } else {
                i + 1
            }
        } else if tk.len() == 0 {
            i + 1
        } else if tk[0] == '#' {
            match parse_time(tk) {
                Some(v) => {
                    self.time = v;
                },
                None => {},
            }
            i + 1
        } else if tk[0] == '0' || tk[0] == '1' || tk[0] == 'x' || tk[0] == 'X' || tk[0] == 'z'
            || tk[0] == 'Z' {
            let id = tail_chars(tk);
            if id.len() > 0 {
                self.record_exec(id.as_slice(), tk[0] == '1');
            }
            i + 1
        } else if tk[0] == 'b' || tk[0] == 'B' {
            if i < len - 1 {
                let high = tail_has_one(tk);
                self.record_exec(toks[i + 1].as_slice(), high);
                i + 2
            } else {
                i + 1
            }
        } else {
            i + 1
        }
    }
}

/// Parses a VCD.
///
/// Handles the subset every VCD writer emits: `$var` declarations inside optional `$scope`s,
/// scalar value changes (`0!`, `1!`, `x!`, `z!`), vector changes (`b1010 !`), and `#<time>`
/// timestamps. Unknown (`x`/`z`) levels are recorded as low so a stuck-unknown line cannot be
/// mistaken for activity.
///
/// # Errors
/// [`VcdError::NoSignals`] or [`VcdError::TruncatedHeader`] if the file is not a usable VCD.
pub fn parse(text: &str) -> (r: Result<Vcd, VcdError>)
    ensures
        ({
            let m = parsed(text@);
            match r {
                Ok(vcd) => {
                    &&& m.signals.len() > 0
                    &&& m.saw_end
                    &&& vcd.names() == m.signals
                    &&& sorted_by_name(vcd.log(), m.log)
                    &&& opt_view(vcd.timescale) == m.timescale
                    &&& vcd.wf()
                },
                Err(e) => {
                    ||| m.signals.len() == 0 && e == VcdError::NoSignals
                    ||| m.signals.len() > 0 && !m.saw_end && e == VcdError::TruncatedHeader
                },
            }
        }),
        ({
            let t = tokens(text@);
            let d = declared_names(t, 0);
            match r {
                Ok(vcd) => vcd.names() == d && d.len() > 0 && header_closed(t, 0),
                Err(e) => {
                    ||| d.len() == 0 && e == VcdError::NoSignals
                    ||| d.len() > 0 && !header_closed(t, 0) && e == VcdError::TruncatedHeader
                },
            }
        }),
{
    proof {
        law_parse_reads_the_header(text@);
    }
    let chars = collect_chars(text);
    let toks = split_tokens(&chars);
    let ghost t = words_view(toks@);
    assert(t =~= tokens(text@));
    let mut b = Builder {
        signals: Vec::new(),
        log: Vec::new(),
        timescale: None,
        ids: Vec::new(),
        time: 0,
        in_defs: true,
        saw_end: false,
    };
    assert(strings_view(b.signals@) =~= seq![]);
    assert(log_view(b.log@) =~= seq![]);
    assert(ids_view(b.ids@) =~= seq![]);
    assert(b.model() == initial_model());
    let mut i: usize = 0;
    while i < toks.len()
        invariant
            i <= toks@.len(),
            t == words_view(toks@),
            t == tokens(text@),
            model_wf(b.model()),
            run(t, i as int, b.model()) == parsed(text@),
        decreases toks.len() - i,
    {
        let ghost m0 = b.model();
        let j = b.step_exec(&toks, i);
        assert(run(t, i as int, m0) == run(t, j as int, b.model()));
        i = j;
    }
    let ghost m = b.model();
    assert(m == parsed(text@));
    if b.signals.len() == 0 {
        return Err(VcdError::NoSignals);
    }
    if !b.saw_end {
        return Err(VcdError::TruncatedHeader);
    }
    let transitions = sort_by_name(b.log);
    let vcd = Vcd { signals: b.signals, transitions, timescale: b.timescale };
    assert(vcd.names() == m.signals);
    proof {
        lemma_sorted_table(m, vcd.log());
    }
    Ok(vcd)
}

// ---------------------------------------------------------------------------------------------
// Role resolution
// ---------------------------------------------------------------------------------------------

/// Candidate `k` of `cands` is the first candidate any name matches, and name `i` is the first
/// name it matches (case-insensitively, as a substring).
pub open spec fn resolves_at(names: Seq<Seq<char>>, cands: Seq<&'static str>, k: int, i: int) -> bool {
    &&& 0 <= k < cands.len()
    &&& 0 <= i < names.len()
    &&& contains_folded_spec(names[i], cands[k]@)
    &&& forall|k2: int, j: int|
        0 <= k2 < k && 0 <= j < names.len() ==> !contains_folded_spec(names[j], cands[k2]@)
    &&& forall|j: int| 0 <= j < i ==> !contains_folded_spec(names[j], cands[k]@)
}

/// The declared name `role` resolves to: the first name matching the first candidate that
/// matches any name at all.
pub open spec fn resolution(names: Seq<Seq<char>>, role: Role) -> Option<int> {
    if exists|k: int, i: int| #[trigger] resolves_at(names, role_candidates(role), k, i) {
        Some(resolution_pair(names, role).1)
    } else {
        None
    }
}

/// The (candidate, name) pair that resolves, when one does.
pub open spec fn resolution_pair(names: Seq<Seq<char>>, role: Role) -> (int, int) {
    choose|k: int, i: int| #[trigger] resolves_at(names, role_candidates(role), k, i)
}

/// At most one (candidate, name) pair resolves.
pub proof fn lemma_resolves_unique(
    names: Seq<Seq<char>>,
    cands: Seq<&'static str>,
    k: int,
    i: int,
    k2: int,
    i2: int,
)
    requires
        resolves_at(names, cands, k, i),
        resolves_at(names, cands, k2, i2),
    ensures
        k == k2 && i == i2,
{
    if k < k2 {
        assert(!contains_folded_spec(names[i], cands[k]@));
    } else if k2 < k {
        assert(!contains_folded_spec(names[i2], cands[k2]@));
    } else if i < i2 {
        assert(!contains_folded_spec(names[i], cands[k]@));
    } else if i2 < i {
        assert(!contains_folded_spec(names[i2], cands[k]@));
    }
}

/// With candidate `k` fixed as the first that matches any name, the first name it matches
/// resolves.
proof fn lemma_first_name(names: Seq<Seq<char>>, cands: Seq<&'static str>, k: int, i: int)
    requires
        0 <= k < cands.len(),
        0 <= i < names.len(),
        contains_folded_spec(names[i], cands[k]@),
        forall|k2: int, j: int|
            0 <= k2 < k && 0 <= j < names.len() ==> !contains_folded_spec(names[j], cands[k2]@),
    ensures
        exists|k1: int, i1: int| #[trigger] resolves_at(names, cands, k1, i1),
    decreases i,
{
    if exists|j: int| 0 <= j < i && contains_folded_spec(names[j], cands[k]@) {
        let j = choose|j: int| 0 <= j < i && contains_folded_spec(names[j], cands[k]@);
        lemma_first_name(names, cands, k, j);
    } else {
        assert(resolves_at(names, cands, k, i));
    }
}

/// Some candidate matching some name means some pair resolves.
proof fn lemma_some_match_resolves(names: Seq<Seq<char>>, cands: Seq<&'static str>, k: int, i: int)
    requires
        0 <= k < cands.len(),
        0 <= i < names.len(),
        contains_folded_spec(names[i], cands[k]@),
    ensures
        exists|k1: int, i1: int| #[trigger] resolves_at(names, cands, k1, i1),
    decreases k,
{
    if exists|k2: int, j: int|
        0 <= k2 < k && 0 <= j < names.len() && contains_folded_spec(names[j], cands[k2]@) {
        let (k2, j) = choose|k2: int, j: int|
            0 <= k2 < k && 0 <= j < names.len() && contains_folded_spec(names[j], cands[k2]@);
        lemma_some_match_resolves(names, cands, k2, j);
    } else {
        lemma_first_name(names, cands, k, i);
    }
}

/// Role resolution: `role` resolves exactly when one of its candidates occurs, ignoring case,
/// in some declared name; it then resolves to the first name (in declaration order) holding the
/// first candidate (in the role's order) that occurs anywhere.
pub proof fn law_resolution_first_candidate_first_name(names: Seq<Seq<char>>, role: Role)
    ensures
        resolution(names, role) is Some <==> exists|k: int, i: int|
            0 <= k < role_candidates(role).len() && 0 <= i < names.len()
                && #[trigger] contains_folded_spec(names[i], role_candidates(role)[k]@),
        resolution(names, role) matches Some(i) ==> exists|k: int|
            0 <= k < role_candidates(role).len() && 0 <= i < names.len()
                && contains_folded_spec(names[i], #[trigger] role_candidates(role)[k]@)
                && (forall|k2: int, j: int|
                0 <= k2 < k && 0 <= j < names.len() ==> !contains_folded_spec(
                    names[j],
                    role_candidates(role)[k2]@,
                )) && (forall|j: int|
                0 <= j < i ==> !contains_folded_spec(names[j], role_candidates(role)[k]@)),
{
    let cands = role_candidates(role);
    if exists|k: int, i: int|
        0 <= k < cands.len() && 0 <= i < names.len() && #[trigger] contains_folded_spec(
            names[i],
            cands[k]@,
        ) {
        let (k, i) = choose|k: int, i: int|
            0 <= k < cands.len() && 0 <= i < names.len() && #[trigger] contains_folded_spec(
                names[i],
                cands[k]@,
            );
        lemma_some_match_resolves(names, cands, k, i);
    }
    if resolution(names, role) is Some {
        let (k, i) = resolution_pair(names, role);
        assert(resolves_at(names, cands, k, i));
    }
}

/// A copy of a list of strings.
fn clone_strings(v: &Vec<String>) -> (r: Vec<String>)
    ensures
        r@ == v@,
{
    let mut r: Vec<String> = Vec::new();
    let mut k: usize = 0;
    while k < v.len()
        invariant
            0 <= k <= v@.len(),
            r@ == v@.take(k as int),
        decreases v.len() - k,
    {
        r.push(v[k].clone());
        assert(v@.take(k + 1) =~= v@.take(k as int).push(v@[k as int]));
        k += 1;
    }
    assert(v@.take(v@.len() as int) =~= v@);
    r
}

/// The error reported when `role` cannot be resolved against `names`.
pub open spec fn is_unresolved(e: VcdError, role: Role, names: Seq<Seq<char>>) -> bool {
    e matches VcdError::UnresolvedRole { role: r, available } && r == role && strings_view(
        available@,
    ) == names
}

impl Vcd {
    /// Position of the declared signal `role` resolves to.
    fn resolve_index(&self, role: Role) -> (r: Result<usize, VcdError>)
        ensures
            match r {
                Ok(i) => resolution(self.names(), role) == Some(i as int) && i < self.signals@.len(),
                Err(e) => resolution(self.names(), role) is None && is_unresolved(
                    e,
                    role,
                    self.names(),
                ),
            },
    {
        let ghost names = self.names();
        let cands = role.candidates();
        let mut k: usize = 0;
        while k < cands.len()
            invariant
                0 <= k <= cands@.len(),
                cands@ == role_candidates(role),
                names == self.names(),
                forall|k2: int, j: int|
                    0 <= k2 < k && 0 <= j < names.len() ==> !contains_folded_spec(
                        names[j],
                        role_candidates(role)[k2]@,
                    ),
            decreases cands.len() - k,
        {
            let cand = collect_chars(cands[k]);
            let mut i: usize = 0;
            while i < self.signals.len()
                invariant
                    0 <= i <= self.signals@.len(),
                    k < cands@.len(),
                    cands@ == role_candidates(role),
                    names == self.names(),
                    cand@ == role_candidates(role)[k as int]@,
                    forall|k2: int, j: int|
                        0 <= k2 < k && 0 <= j < names.len() ==> !contains_folded_spec(
                            names[j],
                            role_candidates(role)[k2]@,
                        ),
                    forall|j: int| 0 <= j < i ==> !contains_folded_spec(names[j], role_candidates(role)[k as int]@),
                decreases self.signals.len() - i,
            {
                let name = collect_chars(self.signals[i].as_str());
                if contains_folded(name.as_slice(), cand.as_slice()) {
                    proof {
                        assert(names[i as int] == name@);
                        assert(contains_folded_spec(names[i as int], role_candidates(role)[k as int]@));
                                                assert(resolves_at(names, role_candidates(role), k as int, i as int));
                        assert(exists|k3: int, i3: int|
                            #[trigger] resolves_at(names, role_candidates(role), k3, i3));
                        let w = resolution_pair(names, role);
                        assert(resolves_at(names, role_candidates(role), w.0, w.1));
                        lemma_resolves_unique(names, role_candidates(role), k as int, i as int, w.0, w.1);
                        assert(resolution(names, role) == Some(i as int));
                    }
                    return Ok(i);
                }
                i += 1;
            }
            k += 1;
        }
        proof {
            assert(!exists|k3: int, i3: int|
                #[trigger] resolves_at(names, role_candidates(role), k3, i3));
        }
        Err(VcdError::UnresolvedRole { role, available: clone_strings(&self.signals) })
    }

    /// Resolves `role` to a declared signal name.
    ///
    /// # Errors
    /// [`VcdError::UnresolvedRole`] listing every declared signal, so the candidate list can be
    /// adapted from an actual capture rather than from guesswork.
    pub fn resolve(&self, role: Role) -> (r: Result<&str, VcdError>)
        ensures
            match r {
                Ok(n) => resolution(self.names(), role) matches Some(i) && n@ == self.names()[i],
                Err(e) => resolution(self.names(), role) is None && is_unresolved(
                    e,
                    role,
                    self.names(),
                ),
            },
    {
        let i = self.resolve_index(role)?;
        Ok(self.signals[i].as_str())
    }

    /// Level changes recorded for `role`.
    ///
    /// # Errors
    /// [`VcdError::UnresolvedRole`] if the role cannot be resolved.
    pub fn edges(&self, role: Role) -> (r: Result<&[Transition], VcdError>)
        ensures
            match r {
                Ok(e) => resolution(self.names(), role) matches Some(i) && e@ == log_lookup(
                    self.log(),
                    self.names()[i],
                ),
                Err(e) => resolution(self.names(), role) is None && is_unresolved(
                    e,
                    role,
                    self.names(),
                ),
            },
    {
        let i = self.resolve_index(role)?;
        let ghost name = self.names()[i as int];
        let ghost l = self.log();
        let mut q: usize = 0;
        while q < self.transitions.len()
            invariant
                0 <= q <= self.transitions@.len(),
                i < self.signals@.len(),
                resolution(self.names(), role) == Some(i as int),
                name == self.names()[i as int],
                l == self.log(),
                forall|j: int| 0 <= j < q ==> l[j].0 != name,
            decreases self.transitions.len() - q,
        {
            if self.transitions[q].0 == self.signals[i] {
                proof {
                    lemma_key_index_at(l, name, q as int);
                    assert(l[q as int].1 == self.transitions@[q as int].1@);
                }
                return Ok(self.transitions[q].1.as_slice());
            }
            q += 1;
        }
        proof {
            lemma_key_index_absent(l, name);
        }
        let empty: &[Transition] = &[];
        assert(empty@ =~= seq![]);
        Ok(empty)
    }
}

// ---------------------------------------------------------------------------------------------
// Edge measurements
// ---------------------------------------------------------------------------------------------

/// Number of low-to-high changes, with the line taken as low before the first entry.
pub open spec fn rising_count(s: Seq<Transition>) -> nat
    decreases s.len(),
{
    if s.len() == 0 {
        0
    } else {
        rising_count(s.drop_last()) + (if s.last().level && (s.len() == 1 || !s[s.len() - 2].level) {
            1nat
        } else {
            0nat
        })
    }
}

/// Number of level changes between consecutive entries.
pub open spec fn change_count(s: Seq<Transition>) -> nat
    decreases s.len(),
{
    if s.len() <= 1 {
        0
    } else {
        change_count(s.drop_last()) + (if s.last().level != s[s.len() - 2].level {
            1nat
        } else {
            0nat
        })
    }
}

/// Counts rising edges (low to high), ignoring repeated same-level entries.
pub fn rising_edges(edges: &[Transition]) -> (n: usize)
    ensures
        n == rising_count(edges@),
{
    let mut count: usize = 0;
    let mut last = false;
    let mut i: usize = 0;
    while i < edges.len()
        invariant
            0 <= i <= edges@.len(),
            count == rising_count(edges@.take(i as int)),
            count <= i,
            last == (i > 0 && edges@[i - 1].level),
        decreases edges.len() - i,
    {
        let edge = edges[i];
        assert(edges@.take(i + 1).drop_last() =~= edges@.take(i as int));
        if edge.level && !last {
            count += 1;
        }
        last = edge.level;
        i += 1;
    }
    assert(edges@.take(edges@.len() as int) =~= edges@);
    count
}

/// Counts level changes.
pub fn transitions(edges: &[Transition]) -> (n: usize)
    ensures
        n == change_count(edges@),
{
    let mut count: usize = 0;
    let mut last: Option<bool> = None;
    let mut i: usize = 0;
    while i < edges.len()
        invariant
            0 <= i <= edges@.len(),
            count == change_count(edges@.take(i as int)),
            count <= i,
            last == (if i > 0 {
                Some(edges@[i - 1].level)
            } else {
                None
            }),
        decreases edges.len() - i,
    {
        let level = edges[i].level;
        assert(edges@.take(i + 1).drop_last() =~= edges@.take(i as int));
        match last {
            Some(prev) => {
                if prev != level {
                    count += 1;
                }
            },
            None => {},
        }
        last = Some(level);
        i += 1;
    }
    assert(edges@.take(edges@.len() as int) =~= edges@);
    count
}

/// The first low entry at or after `i`.
pub open spec fn first_low_from(s: Seq<Transition>, i: int) -> Option<int>
    decreases s.len() - i,
{
    if i < 0 || i >= s.len() {
        None
    } else if !s[i].level {
        Some(i)
    } else {
        first_low_from(s, i + 1)
    }
}

/// The first high entry at time `t` or later, searching from entry `i`.
pub open spec fn first_high_since_from(s: Seq<Transition>, t: u64, i: int) -> Option<int>
    decreases s.len() - i,
{
    if i < 0 || i >= s.len() {
        None
    } else if s[i].level && s[i].time >= t {
        Some(i)
    } else {
        first_high_since_from(s, t, i + 1)
    }
}

/// The first low entry, and the first high entry at or after its time, as times.
pub open spec fn reset_pulse(s: Seq<Transition>) -> Option<(u64, u64)> {
    match first_low_from(s, 0) {
        Some(a) => match first_high_since_from(s, s[a].time, 0) {
            Some(b) => Some((s[a].time, s[b].time)),
            None => None,
        },
        None => None,
    }
}

/// The first time the line goes low, then high again (a reset pulse), if any.
pub fn pulse_low_then_high(edges: &[Transition]) -> (r: Option<(u64, u64)>)
    ensures
        r == reset_pulse(edges@),
{
    let mut i: usize = 0;
    while i < edges.len()
        invariant
            0 <= i <= edges@.len(),
            first_low_from(edges@, i as int) == first_low_from(edges@, 0),
        ensures
            i < edges@.len() ==> !edges@[i as int].level,
            first_low_from(edges@, i as int) == first_low_from(edges@, 0),
        decreases edges.len() - i,
    {
        if !edges[i].level {
            break;
        }
        i += 1;
    }
    if i == edges.len() {
        return None;
    }
    let low = edges[i].time;
    let mut j: usize = 0;
    while j < edges.len()
        invariant
            0 <= j <= edges@.len(),
            i < edges@.len(),
            first_low_from(edges@, 0) == Some(i as int),
            low == edges@[i as int].time,
            first_high_since_from(edges@, low, j as int) == first_high_since_from(edges@, low, 0),
        decreases edges.len() - j,
    {
        if edges[j].level && edges[j].time >= low {
            return Some((low, edges[j].time));
        }
        j += 1;
    }
    None
}

/// The level `gate` holds at time `t`: that of its last entry at or before `t`.
pub open spec fn gate_level_at(gate: Seq<Transition>, t: u64) -> Option<bool>
    decreases gate.len(),
{
    if gate.len() == 0 {
        None
    } else if gate.last().time <= t {
        Some(gate.last().level)
    } else {
        gate_level_at(gate.drop_last(), t)
    }
}

/// Whether clock entry `c` is a rising edge at or after `after` while `gate` holds `level`.
pub open spec fn clock_hit(c: Transition, gate: Seq<Transition>, level: bool, after: u64) -> bool {
    c.level && c.time >= after && gate_level_at(gate, c.time) == Some(level)
}

/// The first clock entry from `i` on that is a hit.
pub open spec fn first_hit_from(
    clock: Seq<Transition>,
    gate: Seq<Transition>,
    level: bool,
    after: u64,
    i: int,
) -> Option<int>
    decreases clock.len() - i,
{
    if i < 0 || i >= clock.len() {
        None
    } else if clock_hit(clock[i], gate, level, after) {
        Some(i)
    } else {
        first_hit_from(clock, gate, level, after, i + 1)
    }
}

/// The time of the first clock hit.
pub open spec fn first_clock_time(
    clock: Seq<Transition>,
    gate: Seq<Transition>,
    level: bool,
    after: u64,
) -> Option<u64> {
    match first_hit_from(clock, gate, level, after, 0) {
        Some(i) => Some(clock[i].time),
        None => None,
    }
}

/// The level `gate` holds at time `t`.
fn level_at(gate: &[Transition], t: u64) -> (r: Option<bool>)
    ensures
        r == gate_level_at(gate@, t),
{
    let mut j: usize = gate.len();
    assert(gate@.take(j as int) =~= gate@);
    while j > 0
        invariant
            0 <= j <= gate@.len(),
            gate_level_at(gate@.take(j as int), t) == gate_level_at(gate@, t),
        decreases j,
    {
        let g = gate[j - 1];
        assert(gate@.take(j as int).drop_last() =~= gate@.take(j - 1));
        if g.time <= t {
            return Some(g.level);
        }
        j -= 1;
    }
    None
}

/// Returns the first clock edge at or after `after` that occurs while `gate` holds `level`.
pub fn first_clock_while(clock: &[Transition], gate: &[Transition], level: bool, after: u64) -> (r:
    Option<u64>)
    ensures
        r == first_clock_time(clock@, gate@, level, after),
{
    let mut i: usize = 0;
    while i < clock.len()
        invariant
            0 <= i <= clock@.len(),
            first_hit_from(clock@, gate@, level, after, i as int) == first_hit_from(
                clock@,
                gate@,
                level,
                after,
                0,
            ),
        decreases clock.len() - i,
    {
        let c = clock[i];
        if c.level && c.time >= after {
            let g = level_at(gate, c.time);
            if g == Some(level) {
                return Some(c.time);
            }
        }
        i += 1;
    }
    None
}

/// The entries at or after `after`.
pub open spec fn since_spec(s: Seq<Transition>, after: u64) -> Seq<Transition> {
    s.filter(|e: Transition| e.time >= after)
}

/// Transitions at or after `after`.
///
/// A real Wokwi capture records every line as `1` at time 0, before the firmware configures its
/// pins, so every activity measurement is taken inside the post-reset window.
pub fn since(edges: &[Transition], after: u64) -> (r: Vec<Transition>)
    ensures
        r@ == since_spec(edges@, after),
{
    let mut out: Vec<Transition> = Vec::new();
    let mut i: usize = 0;
    while i < edges.len()
        invariant
            0 <= i <= edges@.len(),
            out@ == edges@.take(i as int).filter(|e: Transition| e.time >= after),
        decreases edges.len() - i,
    {
        reveal_with_fuel(Seq::filter, 1);
        let e = edges[i];
        if e.time >= after {
            out.push(e);
        }
        assert(edges@.take(i + 1).drop_last() =~= edges@.take(i as int));
        i += 1;
    }
    assert(edges@.take(edges@.len() as int) =~= edges@);
    out
}

/// The time of the last high entry.
pub open spec fn last_high(s: Seq<Transition>) -> Option<u64>
    decreases s.len(),
{
    if s.len() == 0 {
        None
    } else if s.last().level {
        Some(s.last().time)
    } else {
        last_high(s.drop_last())
    }
}

/// The time of the last high entry of `edges`.
fn last_high_time(edges: &[Transition]) -> (r: Option<u64>)
    ensures
        r == last_high(edges@),
{
    let mut j: usize = edges.len();
    assert(edges@.take(j as int) =~= edges@);
    while j > 0
        invariant
            0 <= j <= edges@.len(),
            last_high(edges@.take(j as int)) == last_high(edges@),
        decreases j,
    {
        let e = edges[j - 1];
        assert(edges@.take(j as int).drop_last() =~= edges@.take(j - 1));
        if e.level {
            return Some(e.time);
        }
        j -= 1;
    }
    assert(edges@.take(0) =~= seq![]);
    None
}

// ---------------------------------------------------------------------------------------------
// The property check
// ---------------------------------------------------------------------------------------------

/// One checked property and its outcome.
#[derive(Debug, Clone, PartialEq, Eq)]
pub struct Finding {
    /// Short stable name (used in CI output).
    pub name: &'static str,
    /// Whether the property held.
    pub ok: bool,
    /// Measured evidence for the property.
    pub detail: String,
}

/// Thresholds the analysis applies. Kept explicit so CI cannot silently accept a thinner capture.
#[derive(Debug, Clone, Copy)]
pub struct Thresholds {
    /// Minimum SCK rising edges (one per clocked bit).
    pub min_clock_edges: usize,
    /// Minimum CS level changes.
    pub min_cs_transitions: usize,
    /// Minimum D/C level changes.
    pub min_dc_transitions: usize,
}

impl Default for Thresholds {
    /// One 240x40 RGB565 band is 19,200 pixel bytes = 153,600 clocked bits, so a hundred thousand
    /// rising edges cannot be satisfied by init traffic alone, yet stays well below a full frame so
    /// a truncated capture window is not mistaken for a bus failure.
    fn default() -> (t: Self)
        ensures
            t.min_clock_edges == 100_000,
            t.min_cs_transitions == 8,
            t.min_dc_transitions == 6,
    {
        Thresholds { min_clock_edges: 100_000, min_cs_transitions: 8, min_dc_transitions: 6 }
    }
}

/// The first role, in [`Role::ALL`] order, that does not resolve.
pub open spec fn first_unresolved(names: Seq<Seq<char>>) -> Option<Role> {
    if resolution(names, Role::Sck) is None {
        Some(Role::Sck)
    } else if resolution(names, Role::Mosi) is None {
        Some(Role::Mosi)
    } else if resolution(names, Role::Cs) is None {
        Some(Role::Cs)
    } else if resolution(names, Role::Dc) is None {
        Some(Role::Dc)
    } else if resolution(names, Role::Reset) is None {
        Some(Role::Reset)
    } else {
        None
    }
}

/// The transitions of the signal `role` resolves to.
pub open spec fn role_edges(v: &Vcd, role: Role) -> Seq<Transition> {
    log_lookup(v.log(), v.names()[resolution(v.names(), role)->0])
}

/// `{:?}` of an optional time.
pub open spec fn opt_debug(o: Option<u64>) -> Seq<char> {
    match o {
        Some(n) => "Some("@ + decimal(n as nat) + ")"@,
        None => "None"@,
    }
}

/// `{:?}` of an optional pair of times.
pub open spec fn pair_debug(o: Option<(u64, u64)>) -> Seq<char> {
    match o {
        Some((a, b)) => "Some(("@ + decimal(a as nat) + ", "@ + decimal(b as nat) + "))"@,
        None => "None"@,
    }
}

/// A finding as (name, outcome, evidence).
pub open spec fn finding_view(f: Finding) -> (Seq<char>, bool, Seq<char>) {
    (f.name@, f.ok, f.detail@)
}

/// The end of the reset pulse, which opens the measurement window (`0` without a pulse).
pub open spec fn window_start(reset: Seq<Transition>) -> u64 {
    match reset_pulse(reset) {
        Some((_, released)) => released,
        None => 0,
    }
}

/// Whether data follows a command phase: both exist and the command comes first.
pub open spec fn data_follows(first_command: Option<u64>, first_data: Option<u64>) -> bool {
    match (first_command, first_data) {
        (Some(cmd), Some(data)) => cmd <= data,
        _ => false,
    }
}

/// Whether reset is released before the first command clock and traffic continues past it.
pub open spec fn stages_ordered(
    pulse: Option<(u64, u64)>,
    first_command: Option<u64>,
    last_clock: Option<u64>,
) -> bool {
    match (pulse, first_command, last_clock) {
        (Some((_, released)), Some(cmd), Some(last)) => released <= cmd && last > cmd,
        _ => false,
    }
}

/// The findings `check` reports for the five resolved lines, in order.
pub open spec fn expected_findings(
    sck_all: Seq<Transition>,
    mosi_all: Seq<Transition>,
    cs_all: Seq<Transition>,
    dc_all: Seq<Transition>,
    reset: Seq<Transition>,
    th: Thresholds,
) -> Seq<(Seq<char>, bool, Seq<char>)> {
    let pulse = reset_pulse(reset);
    let window = window_start(reset);
    let sck = since_spec(sck_all, window);
    let clock_edges = rising_count(sck);
    let cs_changes = change_count(since_spec(cs_all, window));
    let dc_changes = change_count(since_spec(dc_all, window));
    let mosi_changes = change_count(since_spec(mosi_all, window));
    let first_command = first_clock_time(sck_all, dc_all, false, window);
    let first_data = first_clock_time(sck_all, dc_all, true, window);
    let last_clock = last_high(sck);
    seq![
        ("clock-activity"@, clock_edges > 0, decimal(clock_edges) + " SCK rising edges"@),
        (
            "cs-transitions"@,
            cs_changes >= th.min_cs_transitions,
            decimal(cs_changes) + " CS changes (need >= "@ + decimal(th.min_cs_transitions as nat)
                + ")"@,
        ),
        (
            "dc-transitions"@,
            dc_changes >= th.min_dc_transitions,
            decimal(dc_changes) + " D/C changes (need >= "@ + decimal(th.min_dc_transitions as nat)
                + ")"@,
        ),
        ("mosi-activity"@, mosi_changes > 0, decimal(mosi_changes) + " MOSI changes"@),
        (
            "reset-sequence"@,
            pulse is Some,
            match pulse {
                Some((low, high)) => "reset low at "@ + decimal(low as nat) + ", released at "@
                    + decimal(high as nat),
                None => "no low\u{2192}high reset pulse"@,
            },
        ),
        (
            "transfer-volume"@,
            clock_edges >= th.min_clock_edges,
            decimal(clock_edges) + " clocked bits (need >= "@ + decimal(th.min_clock_edges as nat)
                + ")"@,
        ),
        (
            "data-follows-command"@,
            data_follows(first_command, first_data),
            "first command clock "@ + opt_debug(first_command) + ", first data clock "@
                + opt_debug(first_data),
        ),
        (
            "stage-ordering"@,
            stages_ordered(pulse, first_command, last_clock),
            "reset="@ + pair_debug(pulse) + " first-command="@ + opt_debug(first_command)
                + " last-clock="@ + opt_debug(last_clock),
        ),
    ]
}

/// Appends `{:?}` of an optional time.
fn push_opt_debug(s: &mut String, o: Option<u64>)
    ensures
        final(s)@ == old(s)@ + opt_debug(o),
{
    match o {
        Some(n) => {
            s.append("Some(");
            push_decimal(s, n);
            s.append(")");
        },
        None => {
            s.append("None");
        },
    }
}

/// Appends `{:?}` of an optional pair of times.
fn push_pair_debug(s: &mut String, o: Option<(u64, u64)>)
    ensures
        final(s)@ == old(s)@ + pair_debug(o),
{
    match o {
        Some((a, b)) => {
            s.append("Some((");
            push_decimal(s, a);
            s.append(", ");
            push_decimal(s, b);
            s.append("))");
        },
        None => {
            s.append("None");
        },
    }
}

/// `"{count}{label}"`.
fn count_detail(count: usize, label: &str) -> (s: String)
    ensures
        s@ == decimal(count as nat) + label@,
{
    let mut s = String::new();
    push_decimal(&mut s, count as u64);
    s.append(label);
    s
}

/// `"{count}{label}{min})"`.
fn gate_detail(count: usize, label: &str, min: usize) -> (s: String)
    ensures
        s@ == decimal(count as nat) + label@ + decimal(min as nat) + ")"@,
{
    let mut s = String::new();
    push_decimal(&mut s, count as u64);
    s.append(label);
    push_decimal(&mut s, min as u64);
    s.append(")");
    s
}

/// Runs every check against `vcd`.
///
/// # Errors
/// [`VcdError::UnresolvedRole`] if any required signal cannot be identified: an unresolved
/// capture is a failure, never a pass.
#[verifier::rlimit(40)]
pub fn check(vcd: &Vcd, thresholds: Thresholds) -> (r: Result<Vec<Finding>, VcdError>)
    ensures
        match r {
            Ok(findings) => first_unresolved(vcd.names()) is None && findings@.map_values(
                |f: Finding| finding_view(f),
            ) == expected_findings(
                role_edges(vcd, Role::Sck),
                role_edges(vcd, Role::Mosi),
                role_edges(vcd, Role::Cs),
                role_edges(vcd, Role::Dc),
                role_edges(vcd, Role::Reset),
                thresholds,
            ),
            Err(e) => first_unresolved(vcd.names()) matches Some(role) && is_unresolved(
                e,
                role,
                vcd.names(),
            ),
        },
{
    // Resolve every role first, so an unnameable capture fails before anything is measured.
    vcd.resolve_index(Role::Sck)?;
    vcd.resolve_index(Role::Mosi)?;
    vcd.resolve_index(Role::Cs)?;
    vcd.resolve_index(Role::Dc)?;
    vcd.resolve_index(Role::Reset)?;
    let sck_all = vcd.edges(Role::Sck)?;
    let mosi_all = vcd.edges(Role::Mosi)?;
    let cs_all = vcd.edges(Role::Cs)?;
    let dc_all = vcd.edges(Role::Dc)?;
    let reset = vcd.edges(Role::Reset)?;

    // Everything is measured after the panel reset is released: that is the bring-up boundary,
    // and it excludes the floating-high sample every line carries at time 0.
    let reset_pulse = pulse_low_then_high(reset);
    let window = match reset_pulse {
        Some((_, released)) => released,
        None => 0,
    };
    let sck = since(sck_all, window);
    let mosi = since(mosi_all, window);
    let cs = since(cs_all, window);
    let dc = since(dc_all, window);

    let clock_edges = rising_edges(sck.as_slice());
    let cs_changes = transitions(cs.as_slice());
    let dc_changes = transitions(dc.as_slice());
    let mosi_changes = transitions(mosi.as_slice());
    let first_command = first_clock_while(sck_all, dc_all, false, window);
    let first_data = first_clock_while(sck_all, dc_all, true, window);
    let last_clock = last_high_time(sck.as_slice());

    let mut findings: Vec<Finding> = Vec::new();
    findings.push(
        Finding {
            name: "clock-activity",
            ok: clock_edges > 0,
            detail: count_detail(clock_edges, " SCK rising edges"),
        },
    );
    findings.push(
        Finding {
            name: "cs-transitions",
            ok: cs_changes >= thresholds.min_cs_transitions,
            detail: gate_detail(
                cs_changes,
                " CS changes (need >= ",
                thresholds.min_cs_transitions,
            ),
        },
    );
    findings.push(
        Finding {
            name: "dc-transitions",
            ok: dc_changes >= thresholds.min_dc_transitions,
            detail: gate_detail(
                dc_changes,
                " D/C changes (need >= ",
                thresholds.min_dc_transitions,
            ),
        },
    );
    findings.push(
        Finding {
            name: "mosi-activity",
            ok: mosi_changes > 0,
            detail: count_detail(mosi_changes, " MOSI changes"),
        },
    );
    let reset_detail = match reset_pulse {
        Some((low, high)) => {
            let mut d = String::from_str("reset low at ");
            push_decimal(&mut d, low);
            d.append(", released at ");
            push_decimal(&mut d, high);
            d
        },
        None => String::from_str("no low\u{2192}high reset pulse"),
    };
    findings.push(
        Finding { name: "reset-sequence", ok: reset_pulse.is_some(), detail: reset_detail },
    );
    findings.push(
        Finding {
            name: "transfer-volume",
            ok: clock_edges >= thresholds.min_clock_edges,
            detail: gate_detail(
                clock_edges,
                " clocked bits (need >= ",
                thresholds.min_clock_edges,
            ),
        },
    );

    // Data must follow a command phase: both must exist, and the first command-phase clock must
    // not come after the first data-phase clock.
    let follows = match (first_command, first_data) {
        (Some(cmd), Some(data)) => cmd <= data,
        _ => false,
    };
    let mut follows_detail = String::from_str("first command clock ");
    push_opt_debug(&mut follows_detail, first_command);
    follows_detail.append(", first data clock ");
    push_opt_debug(&mut follows_detail, first_data);
    findings.push(
        Finding { name: "data-follows-command", ok: follows, detail: follows_detail },
    );

    // Stage ordering: reset released before the first clock, and traffic continues past the
    // first burst.
    let ordered = match (reset_pulse, first_command, last_clock) {
        (Some((_, released)), Some(cmd), Some(last)) => released <= cmd && last > cmd,
        _ => false,
    };
    let mut order_detail = String::from_str("reset=");
    push_pair_debug(&mut order_detail, reset_pulse);
    order_detail.append(" first-command=");
    push_opt_debug(&mut order_detail, first_command);
    order_detail.append(" last-clock=");
    push_opt_debug(&mut order_detail, last_clock);
    findings.push(Finding { name: "stage-ordering", ok: ordered, detail: order_detail });

    assert(findings@.map_values(|f: Finding| finding_view(f)) =~= expected_findings(
        sck_all@,
        mosi_all@,
        cs_all@,
        dc_all@,
        reset@,
        thresholds,
    ));
    Ok(findings)
}

} // verus!
