//! The filter language `target[span{field=value}]=level` and its engine.
//!
//! A filter text is a comma-separated sequence of clauses, each with an
//! optional target prefix, an optional bracketed span sub-clause (a span
//! name and `field=value` equality predicates in braces), and an optional
//! `=level` minimum-severity suffix. Clauses are OR'd; the parts of one
//! clause are AND'd; the empty filter matches every event. Malformed text
//! fails to parse, which is a distinct outcome from a valid filter that
//! matches nothing extra.

use vstd::prelude::*;

use crate::event::Event;
use crate::field::format_of;
use crate::level::Level;
use crate::span::Span;
use crate::text::is_prefix;
use crate::text::str_eq;
use crate::text::str_starts_with;

verus! {

/// A span sub-clause: a span name and field equality predicates, all of
/// which must hold on one and the same span of the event's ancestry.
pub struct SpanClause {
    /// Required span name; the empty name accepts any span.
    pub name: String,
    /// `field=value` predicates; a predicate holds when the span records a
    /// field of that name whose formatted text equals the value.
    pub fields: Vec<(String, String)>,
}

/// The mathematical content of a span sub-clause.
#[verifier::ext_equal]
pub ghost struct SpanClauseV {
    pub name: Seq<char>,
    pub fields: Seq<(Seq<char>, Seq<char>)>,
}

impl View for SpanClause {
    type V = SpanClauseV;

    open spec fn view(&self) -> SpanClauseV {
        SpanClauseV { name: self.name@, fields: self.fields.deep_view() }
    }
}

impl DeepView for SpanClause {
    type V = SpanClauseV;

    open spec fn deep_view(&self) -> SpanClauseV {
        self.view()
    }
}

/// One clause of a filter.
pub struct FilterClause {
    /// The event's target must start with this; empty matches all targets.
    pub target: String,
    /// When present, some span in the event's ancestry must satisfy it.
    pub span: Option<SpanClause>,
    /// When present, the event's level must be at least this severe.
    pub level: Option<Level>,
}

/// The mathematical content of one clause.
#[verifier::ext_equal]
pub ghost struct ClauseV {
    pub target: Seq<char>,
    pub span: Option<SpanClauseV>,
    pub level: Option<Level>,
}

impl View for FilterClause {
    type V = ClauseV;

    open spec fn view(&self) -> ClauseV {
        ClauseV { target: self.target@, span: self.span.deep_view(), level: self.level }
    }
}

impl DeepView for FilterClause {
    type V = ClauseV;

    open spec fn deep_view(&self) -> ClauseV {
        self.view()
    }
}

/// A parsed filter: the clauses, in the order they were written.
pub struct EventFilter {
    pub clauses: Vec<FilterClause>,
}

impl View for EventFilter {
    type V = Seq<ClauseV>;

    open spec fn view(&self) -> Seq<ClauseV> {
        self.clauses.deep_view()
    }
}

impl Default for EventFilter {
    /// The default filter is empty: it matches every event.
    fn default() -> (r: EventFilter)
        ensures
            r@ =~= Seq::<ClauseV>::empty(),
    {
        EventFilter { clauses: Vec::new() }
    }
}

/// Malformed filter text. Recovered locally by callers, typically by
/// substituting the match-all filter and surfacing a validity indicator.
#[derive(Clone, Copy, Debug, PartialEq, Eq, Structural)]
pub struct ParseError;

// ------------------------------------------------------------------
// Matching semantics.
// ------------------------------------------------------------------

/// Span `s` itself records a field named `name` whose formatted text is
/// `value`.
pub open spec fn field_pred_holds(s: Span, name: Seq<char>, value: Seq<char>) -> bool {
    exists|i: int|
        0 <= i < s.fields@.len() && s.fields@[i].0@ == name && format_of(s.fields@[i].1@) == value
}

/// Span `s` itself satisfies the sub-clause: its name matches and every
/// field predicate holds on it.
pub open spec fn span_matches(s: Span, sc: SpanClauseV) -> bool {
    &&& (sc.name.len() == 0 || s.name@ == sc.name)
    &&& forall|i: int|
        0 <= i < sc.fields.len() ==> field_pred_holds(
            s,
            (#[trigger] sc.fields[i]).0,
            sc.fields[i].1,
        )
}

/// Some span of the chain starting at `s` — `s` itself or an ancestor —
/// satisfies the sub-clause.
pub open spec fn chain_matches(s: Span, sc: SpanClauseV) -> bool
    decreases s,
{
    span_matches(s, sc) || match s.parent {
        Option::None => false,
        Option::Some(p) => chain_matches(*p, sc),
    }
}

/// The clause matches the event: the target prefix holds, the span
/// sub-clause (when present) is satisfied somewhere in the event's span
/// chain, and the event's level meets the minimum (when present).
pub open spec fn clause_matches(c: ClauseV, e: Event) -> bool {
    &&& is_prefix(c.target, e.target@)
    &&& match c.span {
        Option::None => true,
        Option::Some(sc) => match e.span {
            Option::None => false,
            Option::Some(s) => chain_matches(*s, sc),
        },
    }
    &&& match c.level {
        Option::None => true,
        Option::Some(min) => e.level.severity() >= min.severity(),
    }
}

/// The event is hidden iff the filter has clauses and none of them matches;
/// the empty filter hides nothing.
pub open spec fn excludes_spec(clauses: Seq<ClauseV>, e: Event) -> bool {
    !(clauses.len() == 0 || exists|i: int| 0 <= i < clauses.len() && clause_matches(#[trigger] clauses[i], e))
}

/// The empty (match-all) filter excludes no event.
pub proof fn lemma_empty_filter_excludes_nothing(clauses: Seq<ClauseV>, e: Event)
    requires
        clauses.len() == 0,
    ensures
        !excludes_spec(clauses, e),
{
}

/// A clause whose target prefix the event's target does not start with
/// never matches; a non-empty filter made only of such clauses excludes the
/// event.
pub proof fn lemma_target_mismatch_excludes(clauses: Seq<ClauseV>, e: Event)
    requires
        clauses.len() > 0,
        forall|i: int| 0 <= i < clauses.len() ==> !is_prefix((#[trigger] clauses[i]).target, e.target@),
    ensures
        excludes_spec(clauses, e),
{
}

/// An event strictly less severe than a clause's level threshold never
/// matches that clause.
pub proof fn lemma_below_threshold_fails(c: ClauseV, min: Level, e: Event)
    requires
        c.level == Option::Some(min),
        e.level.severity() < min.severity(),
    ensures
        !clause_matches(c, e),
{
}

/// An event at least as severe as the threshold passes a clause whose other
/// parts it satisfies: the threshold alone never blocks it.
pub proof fn lemma_at_threshold_passes(c: ClauseV, min: Level, e: Event)
    requires
        c.level == Option::Some(min),
        e.level.severity() >= min.severity(),
        is_prefix(c.target, e.target@),
        c.span is None,
    ensures
        clause_matches(c, e),
{
}

/// Does span `s` itself record a field named `name` formatting to `value`?
fn field_pred(s: &Span, name: &String, value: &String) -> (r: bool)
    ensures
        r == field_pred_holds(*s, name@, value@),
{
    let n = s.fields.len();
    let mut i: usize = 0;
    while i < n
        invariant
            n == s.fields@.len(),
            i <= n,
            forall|j: int|
                0 <= j < i ==> !((#[trigger] s.fields@[j]).0@ == name@ && format_of(
                    s.fields@[j].1@,
                ) == value@),
        decreases n - i,
    {
        if str_eq(s.fields[i].0.as_str(), name.as_str()) {
            let text = s.fields[i].1.format();
            if str_eq(text.as_str(), value.as_str()) {
                proof {
                    assert(s.fields@[i as int].0@ == name@ && format_of(s.fields@[i as int].1@)
                        == value@);
                }
                return true;
            }
        }
        i = i + 1;
    }
    false
}

impl SpanClause {
    /// Does span `s` itself satisfy this sub-clause?
    fn matches_span(&self, s: &Span) -> (r: bool)
        ensures
            r == span_matches(*s, self@),
    {
        if self.name.as_str().unicode_len() != 0 {
            if !str_eq(self.name.as_str(), s.name.as_str()) {
                return false;
            }
        }
        let n = self.fields.len();
        let mut i: usize = 0;
        while i < n
            invariant
                n == self.fields@.len(),
                self@.fields.len() == n,
                forall|j: int| 0 <= j < n ==> #[trigger] self@.fields[j] == (self.fields@[j].0@, self.fields@[j].1@),
                i <= n,
                self@.name.len() == 0 || s.name@ == self@.name,
                forall|j: int|
                    0 <= j < i ==> field_pred_holds(*s, (#[trigger] self@.fields[j]).0, self@.fields[j].1),
            decreases n - i,
        {
            if !field_pred(s, &self.fields[i].0, &self.fields[i].1) {
                proof {
                    assert(self@.fields[i as int] == (
                        self.fields@[i as int].0@,
                        self.fields@[i as int].1@,
                    ));
                    assert(!field_pred_holds(
                        *s,
                        self@.fields[i as int].0,
                        self@.fields[i as int].1,
                    ));
                }
                return false;
            }
            i = i + 1;
        }
        true
    }

    /// Does any span of the chain starting at `s` satisfy this sub-clause?
    /// Stops at the first satisfying span; the walk is finite because every
    /// chain is.
    fn matches_chain(&self, s: &Span) -> (r: bool)
        ensures
            r == chain_matches(*s, self@),
        decreases *s,
    {
        if self.matches_span(s) {
            return true;
        }
        match &s.parent {
            Option::None => false,
            Option::Some(p) => self.matches_chain(p),
        }
    }
}

impl FilterClause {
    /// Does this clause match the event?
    fn matches(&self, e: &Event) -> (r: bool)
        ensures
            r == clause_matches(self@, *e),
    {
        if !str_starts_with(e.target.as_str(), self.target.as_str()) {
            return false;
        }
        match &self.span {
            Option::Some(sc) => {
                match &e.span {
                    Option::Some(s) => {
                        if !sc.matches_chain(s) {
                            return false;
                        }
                    },
                    Option::None => {
                        return false;
                    },
                }
            },
            Option::None => {},
        }
        match &self.level {
            Option::Some(min) => e.level.passes(min),
            Option::None => true,
        }
    }
}

impl EventFilter {
    /// True iff the event should be hidden: the filter has clauses and none
    /// of them matches. Stops at the first matching clause.
    pub fn excludes(&self, e: &Event) -> (r: bool)
        ensures
            r == excludes_spec(self@, *e),
    {
        let n = self.clauses.len();
        if n == 0 {
            return false;
        }
        let mut i: usize = 0;
        while i < n
            invariant
                n == self.clauses@.len(),
                self@.len() == n,
                forall|j: int| 0 <= j < n ==> #[trigger] self@[j] == self.clauses@[j]@,
                i <= n,
                forall|j: int| 0 <= j < i ==> !clause_matches(#[trigger] self@[j], *e),
            decreases n - i,
        {
            if self.clauses[i].matches(e) {
                proof {
                    assert(clause_matches(self@[i as int], *e));
                }
                return false;
            }
            i = i + 1;
        }
        true
    }
}

// ------------------------------------------------------------------
// The grammar, as a character-at-a-time state machine.
// ------------------------------------------------------------------

/// Where in a clause the parser stands.
#[derive(Clone, Copy, Debug, PartialEq, Eq, Structural)]
pub enum Mode {
    /// Reading the target prefix, at the start of a clause.
    Target,
    /// After `[`: reading the span name.
    SpanName,
    /// Inside `{`: reading a field name.
    Key,
    /// After `=` inside braces: reading a field value.
    Value,
    /// After `}`: only `]` may follow.
    AfterFields,
    /// After `]`: only `=`, `,` or the end may follow.
    AfterSpan,
    /// After a clause-level `=`: reading the level name.
    LevelName,
}

/// The parser's full state: the finished clauses and the partial clause.
#[verifier::ext_equal]
pub ghost struct StateV {
    pub clauses: Seq<ClauseV>,
    pub target: Seq<char>,
    pub span_name: Seq<char>,
    pub pairs: Seq<(Seq<char>, Seq<char>)>,
    pub key: Seq<char>,
    pub value: Seq<char>,
    pub level_name: Seq<char>,
    pub span: Option<SpanClauseV>,
    pub mode: Mode,
}

/// The state before any character has been read.
pub open spec fn init_state() -> StateV {
    StateV {
        clauses: Seq::empty(),
        target: Seq::empty(),
        span_name: Seq::empty(),
        pairs: Seq::empty(),
        key: Seq::empty(),
        value: Seq::empty(),
        level_name: Seq::empty(),
        span: Option::None,
        mode: Mode::Target,
    }
}

/// The level named by a clause's `=level` suffix, lowercase.
pub open spec fn level_of(name: Seq<char>) -> Option<Level> {
    if name == seq!['t', 'r', 'a', 'c', 'e'] {
        Option::Some(Level::Trace)
    } else if name == seq!['d', 'e', 'b', 'u', 'g'] {
        Option::Some(Level::Debug)
    } else if name == seq!['i', 'n', 'f', 'o'] {
        Option::Some(Level::Info)
    } else if name == seq!['w', 'a', 'r', 'n'] {
        Option::Some(Level::Warn)
    } else if name == seq!['e', 'r', 'r', 'o', 'r'] {
        Option::Some(Level::Error)
    } else {
        Option::None
    }
}

/// `st` with the partial clause closed off and pushed, ready for the next
/// clause.
pub open spec fn push_clause(st: StateV, level: Option<Level>) -> StateV {
    StateV {
        clauses: st.clauses.push(ClauseV { target: st.target, span: st.span, level }),
        target: Seq::empty(),
        span_name: Seq::empty(),
        pairs: Seq::empty(),
        key: Seq::empty(),
        value: Seq::empty(),
        level_name: Seq::empty(),
        span: Option::None,
        mode: Mode::Target,
    }
}

/// One step of the grammar: the state after reading `c` in state `st`, or
/// `None` when `c` is malformed there.
pub open spec fn step(st: StateV, c: char) -> Option<StateV> {
    match st.mode {
        Mode::Target => {
            if c == ',' {
                Option::Some(push_clause(st, Option::None))
            } else if c == '[' {
                Option::Some(StateV { mode: Mode::SpanName, span_name: Seq::empty(), ..st })
            } else if c == '=' {
                Option::Some(StateV { mode: Mode::LevelName, level_name: Seq::empty(), ..st })
            } else {
                Option::Some(StateV { target: st.target.push(c), ..st })
            }
        },
        Mode::SpanName => {
            if c == '{' {
                Option::Some(
                    StateV {
                        mode: Mode::Key,
                        pairs: Seq::empty(),
                        key: Seq::empty(),
                        ..st
                    },
                )
            } else if c == ']' {
                Option::Some(
                    StateV {
                        mode: Mode::AfterSpan,
                        span: Option::Some(
                            SpanClauseV { name: st.span_name, fields: Seq::empty() },
                        ),
                        span_name: Seq::empty(),
                        ..st
                    },
                )
            } else if c == ',' || c == '[' || c == '=' || c == '}' {
                Option::None
            } else {
                Option::Some(StateV { span_name: st.span_name.push(c), ..st })
            }
        },
        Mode::Key => {
            if c == '=' {
                Option::Some(StateV { mode: Mode::Value, value: Seq::empty(), ..st })
            } else if c == '}' {
                if st.key.len() == 0 && st.pairs.len() == 0 {
                    Option::Some(
                        StateV {
                            mode: Mode::AfterFields,
                            span: Option::Some(
                                SpanClauseV { name: st.span_name, fields: Seq::empty() },
                            ),
                            span_name: Seq::empty(),
                            key: Seq::empty(),
                            ..st
                        },
                    )
                } else {
                    Option::None
                }
            } else if c == ',' || c == '[' || c == ']' || c == '{' {
                Option::None
            } else {
                Option::Some(StateV { key: st.key.push(c), ..st })
            }
        },
        Mode::Value => {
            if c == ',' {
                Option::Some(
                    StateV {
                        mode: Mode::Key,
                        pairs: st.pairs.push((st.key, st.value)),
                        key: Seq::empty(),
                        value: Seq::empty(),
                        ..st
                    },
                )
            } else if c == '}' {
                Option::Some(
                    StateV {
                        mode: Mode::AfterFields,
                        span: Option::Some(
                            SpanClauseV {
                                name: st.span_name,
                                fields: st.pairs.push((st.key, st.value)),
                            },
                        ),
                        span_name: Seq::empty(),
                        pairs: Seq::empty(),
                        key: Seq::empty(),
                        value: Seq::empty(),
                        ..st
                    },
                )
            } else if c == '[' || c == ']' || c == '{' || c == '=' {
                Option::None
            } else {
                Option::Some(StateV { value: st.value.push(c), ..st })
            }
        },
        Mode::AfterFields => {
            if c == ']' {
                Option::Some(StateV { mode: Mode::AfterSpan, ..st })
            } else {
                Option::None
            }
        },
        Mode::AfterSpan => {
            if c == '=' {
                Option::Some(StateV { mode: Mode::LevelName, level_name: Seq::empty(), ..st })
            } else if c == ',' {
                Option::Some(push_clause(st, Option::None))
            } else {
                Option::None
            }
        },
        Mode::LevelName => {
            if c == ',' {
                match level_of(st.level_name) {
                    Option::Some(l) => Option::Some(push_clause(st, Option::Some(l))),
                    Option::None => Option::None,
                }
            } else {
                Option::Some(StateV { level_name: st.level_name.push(c), ..st })
            }
        },
    }
}

/// What the state yields at the end of the text: the parsed clauses, or
/// `None` when the text stops in the middle of a bracketed part or names an
/// unknown level. Text that is empty altogether parses to the empty filter.
pub open spec fn finish(st: StateV) -> Option<Seq<ClauseV>> {
    match st.mode {
        Mode::Target => {
            if st.clauses.len() == 0 && st.target.len() == 0 {
                Option::Some(Seq::empty())
            } else {
                Option::Some(push_clause(st, Option::None).clauses)
            }
        },
        Mode::AfterSpan => Option::Some(push_clause(st, Option::None).clauses),
        Mode::LevelName => {
            match level_of(st.level_name) {
                Option::Some(l) => Option::Some(push_clause(st, Option::Some(l)).clauses),
                Option::None => Option::None,
            }
        },
        _ => Option::None,
    }
}

/// Running the machine over `s` from position `i` in state `st`.
pub open spec fn run(s: Seq<char>, i: nat, st: StateV) -> Option<Seq<ClauseV>>
    decreases s.len() - i when i <= s.len()
{
    if i >= s.len() {
        finish(st)
    } else {
        match step(st, s[i as int]) {
            Option::None => Option::None,
            Option::Some(st2) => run(s, i + 1, st2),
        }
    }
}

/// The grammar: what filter text `s` parses to, if it is well formed.
pub open spec fn parse_spec(s: Seq<char>) -> Option<Seq<ClauseV>> {
    run(s, 0, init_state())
}

/// The machine state the executable parser stands in: finished tokens come
/// from its variables, and the token being accumulated is the slice of the
/// input from `tok_start` to the cursor.
pub open spec fn abs(
    s: Seq<char>,
    i: int,
    tok_start: int,
    mode: Mode,
    clauses: Seq<ClauseV>,
    target: Seq<char>,
    span_name: Seq<char>,
    pairs: Seq<(Seq<char>, Seq<char>)>,
    key: Seq<char>,
    span: Option<SpanClauseV>,
) -> StateV {
    StateV {
        clauses,
        pairs,
        span,
        mode,
        target: if mode == Mode::Target {
            s.subrange(tok_start, i)
        } else {
            target
        },
        span_name: if mode == Mode::SpanName {
            s.subrange(tok_start, i)
        } else {
            span_name
        },
        key: if mode == Mode::Key {
            s.subrange(tok_start, i)
        } else {
            key
        },
        value: if mode == Mode::Value {
            s.subrange(tok_start, i)
        } else {
            Seq::empty()
        },
        level_name: if mode == Mode::LevelName {
            s.subrange(tok_start, i)
        } else {
            Seq::empty()
        },
    }
}

/// Recognises the lowercase level names of the grammar.
fn parse_level_name(name: &str) -> (r: Option<Level>)
    ensures
        r == level_of(name@),
{
    proof {
        reveal_strlit("trace");
        reveal_strlit("debug");
        reveal_strlit("info");
        reveal_strlit("warn");
        reveal_strlit("error");
        assert("trace"@ =~= seq!['t', 'r', 'a', 'c', 'e']);
        assert("debug"@ =~= seq!['d', 'e', 'b', 'u', 'g']);
        assert("info"@ =~= seq!['i', 'n', 'f', 'o']);
        assert("warn"@ =~= seq!['w', 'a', 'r', 'n']);
        assert("error"@ =~= seq!['e', 'r', 'r', 'o', 'r']);
    }
    if str_eq(name, "trace") {
        Option::Some(Level::Trace)
    } else if str_eq(name, "debug") {
        Option::Some(Level::Debug)
    } else if str_eq(name, "info") {
        Option::Some(Level::Info)
    } else if str_eq(name, "warn") {
        Option::Some(Level::Warn)
    } else if str_eq(name, "error") {
        Option::Some(Level::Error)
    } else {
        Option::None
    }
}

impl EventFilter {
    /// Parses filter text. Returns the parsed filter exactly on well-formed
    /// text, and `ParseError` exactly on malformed text — a failed parse is
    /// distinct from a valid filter that happens to match nothing.
    pub fn parse(text: &str) -> (r: Result<EventFilter, ParseError>)
        ensures
            match r {
                Result::Ok(f) => parse_spec(text@) == Option::Some(f@),
                Result::Err(_) => parse_spec(text@) is None,
            },
    {
        let n = text.unicode_len();
        let mut clauses: Vec<FilterClause> = Vec::new();
        let mut mode = Mode::Target;
        let mut tok_start: usize = 0;
        let mut target = String::new();
        let mut span_name = String::new();
        let mut pairs: Vec<(String, String)> = Vec::new();
        let mut key = String::new();
        let mut span: Option<SpanClause> = Option::None;
        let mut i: usize = 0;
        proof {
            assert(abs(
                text@,
                0,
                0,
                Mode::Target,
                clauses.deep_view(),
                target@,
                span_name@,
                pairs.deep_view(),
                key@,
                span.deep_view(),
            ) =~~= init_state());
        }
        while i < n
            invariant
                n == text@.len(),
                i <= n,
                tok_start <= i,
                run(
                    text@,
                    i as nat,
                    abs(
                        text@,
                        i as int,
                        tok_start as int,
                        mode,
                        clauses.deep_view(),
                        target@,
                        span_name@,
                        pairs.deep_view(),
                        key@,
                        span.deep_view(),
                    ),
                ) == parse_spec(text@),
            decreases n - i,
        {
            let ghost st_old = abs(
                text@,
                i as int,
                tok_start as int,
                mode,
                clauses.deep_view(),
                target@,
                span_name@,
                pairs.deep_view(),
                key@,
                span.deep_view(),
            );
            let ghost old_clauses = clauses.deep_view();
            let ghost old_pairs = pairs.deep_view();
            let c = text.get_char(i);
            match mode {
                Mode::Target => {
                    if c == ',' {
                        let t = text.substring_char(tok_start, i).to_owned();
                        let sp = span;
                        clauses.push(FilterClause { target: t, span: sp, level: Option::None });
                        span = Option::None;
                        target = String::new();
                        span_name = String::new();
                        pairs = Vec::new();
                        key = String::new();
                        mode = Mode::Target;
                        tok_start = i + 1;
                        proof {
                            assert(clauses.deep_view() =~= st_old.clauses.push(
                                ClauseV {
                                    target: st_old.target,
                                    span: st_old.span,
                                    level: Option::None,
                                },
                            ));
                        }
                    } else if c == '[' {
                        target = text.substring_char(tok_start, i).to_owned();
                        mode = Mode::SpanName;
                        tok_start = i + 1;
                    } else if c == '=' {
                        target = text.substring_char(tok_start, i).to_owned();
                        mode = Mode::LevelName;
                        tok_start = i + 1;
                    } else {
                        proof {
                            assert(text@.subrange(tok_start as int, i + 1) =~= text@.subrange(
                                tok_start as int,
                                i as int,
                            ).push(c));
                        }
                    }
                },
                Mode::SpanName => {
                    if c == '{' {
                        span_name = text.substring_char(tok_start, i).to_owned();
                        pairs = Vec::new();
                        key = String::new();
                        mode = Mode::Key;
                        tok_start = i + 1;
                        proof {
                            assert(pairs.deep_view() =~= Seq::<(Seq<char>, Seq<char>)>::empty());
                        }
                    } else if c == ']' {
                        let nm = text.substring_char(tok_start, i).to_owned();
                        span = Option::Some(SpanClause { name: nm, fields: Vec::new() });
                        span_name = String::new();
                        mode = Mode::AfterSpan;
                        tok_start = i + 1;
                        proof {
                            assert(span.deep_view() matches Option::Some(sv) && sv
                                =~~= (SpanClauseV {
                                name: st_old.span_name,
                                fields: Seq::empty(),
                            }));
                        }
                    } else if c == ',' || c == '[' || c == '=' || c == '}' {
                        proof {
                            assert(step(st_old, c) is None);
                        }
                        return Result::Err(ParseError);
                    } else {
                        proof {
                            assert(text@.subrange(tok_start as int, i + 1) =~= text@.subrange(
                                tok_start as int,
                                i as int,
                            ).push(c));
                        }
                    }
                },
                Mode::Key => {
                    if c == '=' {
                        key = text.substring_char(tok_start, i).to_owned();
                        mode = Mode::Value;
                        tok_start = i + 1;
                    } else if c == '}' {
                        if tok_start == i && pairs.len() == 0 {
                            let nm = span_name;
                            span = Option::Some(SpanClause { name: nm, fields: Vec::new() });
                            span_name = String::new();
                            key = String::new();
                            mode = Mode::AfterFields;
                            tok_start = i + 1;
                            proof {
                                assert(st_old.key =~= Seq::<char>::empty());
                                assert(st_old.pairs.len() == 0);
                            }
                        } else {
                            proof {
                                assert(st_old.key.len() != 0 || st_old.pairs.len() != 0);
                                assert(step(st_old, c) is None);
                            }
                            return Result::Err(ParseError);
                        }
                    } else if c == ',' || c == '[' || c == ']' || c == '{' {
                        proof {
                            assert(step(st_old, c) is None);
                        }
                        return Result::Err(ParseError);
                    } else {
                        proof {
                            assert(text@.subrange(tok_start as int, i + 1) =~= text@.subrange(
                                tok_start as int,
                                i as int,
                            ).push(c));
                        }
                    }
                },
                Mode::Value => {
                    if c == ',' {
                        let v = text.substring_char(tok_start, i).to_owned();
                        let k = key;
                        pairs.push((k, v));
                        key = String::new();
                        mode = Mode::Key;
                        tok_start = i + 1;
                        proof {
                            assert(pairs.deep_view() =~= old_pairs.push(
                                (st_old.key, st_old.value),
                            ));
                        }
                    } else if c == '}' {
                        let v = text.substring_char(tok_start, i).to_owned();
                        let k = key;
                        pairs.push((k, v));
                        let nm = span_name;
                        let fields_done = pairs;
                        span = Option::Some(SpanClause { name: nm, fields: fields_done });
                        span_name = String::new();
                        pairs = Vec::new();
                        key = String::new();
                        mode = Mode::AfterFields;
                        tok_start = i + 1;
                        proof {
                            assert(span.deep_view() matches Option::Some(sv) && sv
                                =~~= (SpanClauseV {
                                name: st_old.span_name,
                                fields: st_old.pairs.push((st_old.key, st_old.value)),
                            }));
                            assert(pairs.deep_view() =~= Seq::<(Seq<char>, Seq<char>)>::empty());
                        }
                    } else if c == '[' || c == ']' || c == '{' || c == '=' {
                        proof {
                            assert(step(st_old, c) is None);
                        }
                        return Result::Err(ParseError);
                    } else {
                        proof {
                            assert(text@.subrange(tok_start as int, i + 1) =~= text@.subrange(
                                tok_start as int,
                                i as int,
                            ).push(c));
                        }
                    }
                },
                Mode::AfterFields => {
                    if c == ']' {
                        mode = Mode::AfterSpan;
                        tok_start = i + 1;
                    } else {
                        proof {
                            assert(step(st_old, c) is None);
                        }
                        return Result::Err(ParseError);
                    }
                },
                Mode::AfterSpan => {
                    if c == '=' {
                        mode = Mode::LevelName;
                        tok_start = i + 1;
                    } else if c == ',' {
                        let t = target;
                        let sp = span;
                        clauses.push(FilterClause { target: t, span: sp, level: Option::None });
                        span = Option::None;
                        target = String::new();
                        span_name = String::new();
                        pairs = Vec::new();
                        key = String::new();
                        mode = Mode::Target;
                        tok_start = i + 1;
                        proof {
                            assert(clauses.deep_view() =~= st_old.clauses.push(
                                ClauseV {
                                    target: st_old.target,
                                    span: st_old.span,
                                    level: Option::None,
                                },
                            ));
                        }
                    } else {
                        proof {
                            assert(step(st_old, c) is None);
                        }
                        return Result::Err(ParseError);
                    }
                },
                Mode::LevelName => {
                    if c == ',' {
                        let name = text.substring_char(tok_start, i);
                        match parse_level_name(name) {
                            Option::Some(l) => {
                                let t = target;
                                let sp = span;
                                clauses.push(
                                    FilterClause { target: t, span: sp, level: Option::Some(l) },
                                );
                                span = Option::None;
                                target = String::new();
                                span_name = String::new();
                                pairs = Vec::new();
                                key = String::new();
                                mode = Mode::Target;
                                tok_start = i + 1;
                                proof {
                                    assert(clauses.deep_view() =~= st_old.clauses.push(
                                        ClauseV {
                                            target: st_old.target,
                                            span: st_old.span,
                                            level: Option::Some(l),
                                        },
                                    ));
                                }
                            },
                            Option::None => {
                                proof {
                                    assert(step(st_old, c) is None);
                                }
                                return Result::Err(ParseError);
                            },
                        }
                    } else {
                        proof {
                            assert(text@.subrange(tok_start as int, i + 1) =~= text@.subrange(
                                tok_start as int,
                                i as int,
                            ).push(c));
                        }
                    }
                },
            }
            proof {
                let st_new = abs(
                    text@,
                    i + 1,
                    tok_start as int,
                    mode,
                    clauses.deep_view(),
                    target@,
                    span_name@,
                    pairs.deep_view(),
                    key@,
                    span.deep_view(),
                );
                assert(step(st_old, c) is Some);
                assert(step(st_old, c)->Some_0 =~~= st_new);
                assert(run(text@, i as nat, st_old) == run(text@, (i + 1) as nat, st_new));
            }
            i = i + 1;
        }
        let ghost st_end = abs(
            text@,
            n as int,
            tok_start as int,
            mode,
            clauses.deep_view(),
            target@,
            span_name@,
            pairs.deep_view(),
            key@,
            span.deep_view(),
        );
        proof {
            assert(run(text@, n as nat, st_end) == finish(st_end));
        }
        match mode {
            Mode::Target => {
                if clauses.len() == 0 && tok_start == n {
                    let f = EventFilter { clauses: Vec::new() };
                    proof {
                        assert(st_end.target =~= Seq::<char>::empty());
                        assert(f@ =~= Seq::<ClauseV>::empty());
                    }
                    Result::Ok(f)
                } else {
                    let t = text.substring_char(tok_start, n).to_owned();
                    let sp = span;
                    clauses.push(FilterClause { target: t, span: sp, level: Option::None });
                    let f = EventFilter { clauses };
                    proof {
                        assert(st_end.clauses.len() != 0 || st_end.target.len() != 0);
                        assert(f@ =~= push_clause(st_end, Option::None).clauses);
                    }
                    Result::Ok(f)
                }
            },
            Mode::AfterSpan => {
                let t = target;
                let sp = span;
                clauses.push(FilterClause { target: t, span: sp, level: Option::None });
                let f = EventFilter { clauses };
                proof {
                    assert(f@ =~= push_clause(st_end, Option::None).clauses);
                }
                Result::Ok(f)
            },
            Mode::LevelName => {
                let name = text.substring_char(tok_start, n);
                match parse_level_name(name) {
                    Option::Some(l) => {
                        let t = target;
                        let sp = span;
                        clauses.push(FilterClause { target: t, span: sp, level: Option::Some(l) });
                        let f = EventFilter { clauses };
                        proof {
                            assert(f@ =~= push_clause(st_end, Option::Some(l)).clauses);
                        }
                        Result::Ok(f)
                    },
                    Option::None => Result::Err(ParseError),
                }
            },
            _ => Result::Err(ParseError),
        }
    }

    /// The consumer's per-pass subset: the positions, in ascending order, of
    /// exactly those events that this filter does not exclude.
    pub fn visible_indices(&self, events: &Vec<Event>) -> (r: Vec<usize>)
        ensures
            forall|k: int|
                0 <= k < r@.len() ==> #[trigger] r@[k] < events@.len() && !excludes_spec(
                    self@,
                    events@[r@[k] as int],
                ),
            forall|k1: int, k2: int| 0 <= k1 < k2 < r@.len() ==> r@[k1] < r@[k2],
            forall|i: int|
                0 <= i < events@.len() && !excludes_spec(self@, events@[i]) ==> r@.contains(
                    i as usize,
                ),
    {
        let n = events.len();
        let mut r: Vec<usize> = Vec::new();
        let mut i: usize = 0;
        while i < n
            invariant
                n == events@.len(),
                i <= n,
                forall|k: int|
                    0 <= k < r@.len() ==> #[trigger] r@[k] < i && !excludes_spec(
                        self@,
                        events@[r@[k] as int],
                    ),
                forall|k1: int, k2: int| 0 <= k1 < k2 < r@.len() ==> r@[k1] < r@[k2],
                forall|j: int|
                    0 <= j < i && !excludes_spec(self@, events@[j]) ==> r@.contains(j as usize),
            decreases n - i,
        {
            if !self.excludes(&events[i]) {
                let ghost old_r = r@;
                r.push(i);
                proof {
                    assert(r@ == old_r.push(i));
                    assert(r@[r@.len() - 1] == i);
                    assert(forall|j: int|
                        0 <= j < i && !excludes_spec(self@, events@[j]) ==> old_r.contains(
                            j as usize,
                        ));
                    assert forall|j: int|
                        0 <= j < i + 1 && !excludes_spec(self@, events@[j]) implies r@.contains(
                        j as usize,
                    ) by {
                        if j < i {
                            let k = choose|k: int| 0 <= k < old_r.len() && old_r[k] == j as usize;
                            assert(r@[k] == j as usize);
                        } else {
                            assert(r@[r@.len() - 1] == j as usize);
                        }
                    }
                }
            }
            i = i + 1;
        }
        r
    }

    /// Parses filter text the way an interactive consumer uses it: malformed
    /// text falls back to the match-all filter, and the second component
    /// reports validity so the caller can surface an indicator without
    /// losing what is already displayed.
    pub fn parse_or_match_all(text: &str) -> (r: (EventFilter, bool))
        ensures
            r.1 == (parse_spec(text@) is Some),
            r.1 ==> parse_spec(text@) == Option::Some(r.0@),
            !r.1 ==> r.0@ =~= Seq::<ClauseV>::empty(),
    {
        match EventFilter::parse(text) {
            Result::Ok(f) => (f, true),
            Result::Err(_) => (EventFilter::default(), false),
        }
    }
}

} // verus!
