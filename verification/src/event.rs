//! A single recorded occurrence: timestamp, severity, origin, fields, and
//! the span that was active when it was emitted.

use std::sync::Arc;

use vstd::prelude::*;

use crate::field::Field;
use crate::field::format_of;
use crate::level::Level;
use crate::span::Span;
use crate::text::push_three_digits;
use crate::text::push_two_digits;
use crate::text::str_eq;
use crate::text::three_digits;
use crate::text::two_digits;

verus! {

/// Milliseconds in one day.
pub open spec fn millis_per_day() -> nat {
    86400000
}

/// The time of day carried by a timestamp of `ms` milliseconds, rendered as
/// `HH:MM:SS.mmm` with millisecond precision.
pub open spec fn timestamp_display(ms: u64) -> Seq<char> {
    let t = (ms as nat) % millis_per_day();
    two_digits(t / 3600000) + seq![':'] + two_digits((t / 60000) % 60) + seq![':'] + two_digits(
        (t / 1000) % 60,
    ) + seq!['.'] + three_digits(t % 1000)
}

/// The field name under which an event's human-readable message is recorded.
pub open spec fn message_name() -> Seq<char> {
    seq!['m', 'e', 's', 's', 'a', 'g', 'e']
}

/// The first field in `fields` recorded under `name`, if any.
pub open spec fn lookup(fields: Seq<(String, Field)>, name: Seq<char>) -> Option<Field>
    decreases fields.len(),
{
    if fields.len() == 0 {
        Option::None
    } else if fields[0].0@ == name {
        Option::Some(fields[0].1)
    } else {
        lookup(fields.drop_first(), name)
    }
}

/// Looking a name up below the first `i` entries gives the same answer when
/// none of those entries carries the name.
pub proof fn lemma_lookup_skip(fields: Seq<(String, Field)>, name: Seq<char>, i: int)
    requires
        0 <= i <= fields.len(),
        forall|j: int| 0 <= j < i ==> fields[j].0@ != name,
    ensures
        lookup(fields, name) == lookup(fields.skip(i), name),
    decreases i,
{
    if i > 0 {
        lemma_lookup_skip(fields.drop_first(), name, i - 1);
        assert(fields.drop_first().skip(i - 1) =~= fields.skip(i));
    } else {
        assert(fields.skip(0) =~= fields);
    }
}

/// One recorded occurrence. Immutable once created; owned by the event
/// buffer once appended.
pub struct Event {
    /// Milliseconds since the start of an epoch; only the time of day is
    /// rendered. Supports chronological ordering.
    pub timestamp: u64,
    /// Severity of the occurrence.
    pub level: Level,
    /// Subsystem name, used for prefix filtering.
    pub target: String,
    /// The event's own name.
    pub name: String,
    /// The event's field set, in declaration order, names unique.
    pub fields: Vec<(String, Field)>,
    /// The span that was active when the event was emitted, if any.
    pub span: Option<Arc<Span>>,
}

impl Event {
    /// The first field recorded under `name`, if any.
    pub fn field(&self, name: &str) -> (r: Option<&Field>)
        ensures
            match r {
                Option::Some(f) => lookup(self.fields@, name@) == Option::Some(*f),
                Option::None => lookup(self.fields@, name@) is None,
            },
    {
        let n = self.fields.len();
        let mut i: usize = 0;
        while i < n
            invariant
                n == self.fields@.len(),
                i <= n,
                forall|j: int| 0 <= j < i ==> self.fields@[j].0@ != name@,
            decreases n - i,
        {
            if str_eq(self.fields[i].0.as_str(), name) {
                proof {
                    lemma_lookup_skip(self.fields@, name@, i as int);
                    assert(self.fields@.skip(i as int)[0] == self.fields@[i as int]);
                    assert(self.fields@.skip(i as int).len() > 0);
                }
                return Option::Some(&self.fields[i].1);
            }
            i = i + 1;
        }
        proof {
            lemma_lookup_skip(self.fields@, name@, n as int);
            assert(self.fields@.skip(n as int).len() == 0);
        }
        Option::None
    }

    /// The `target name` heading under which an event's own details are
    /// shown.
    pub fn origin(&self) -> (r: String)
        ensures
            r@ == self.target@ + seq![' '] + self.name@,
    {
        proof {
            reveal_strlit(" ");
        }
        let mut out = self.target.clone();
        out.append(" ");
        out.append(self.name.as_str());
        proof {
            assert(" "@ =~= seq![' ']);
            assert(out@ =~= self.target@ + seq![' '] + self.name@);
        }
        out
    }

    /// Renders the event's time of day as `HH:MM:SS.mmm`.
    pub fn format_timestamp(&self) -> (r: String)
        ensures
            r@ == timestamp_display(self.timestamp),
    {
        let t = self.timestamp % 86400000;
        let h = t / 3600000;
        let m = (t / 60000) % 60;
        let s = (t / 1000) % 60;
        let milli = t % 1000;
        assert(h < 24) by {
            assert(t < 86400000);
        }
        let mut out = String::new();
        push_two_digits(&mut out, h);
        proof {
            reveal_strlit(":");
            reveal_strlit(".");
        }
        out.append(":");
        push_two_digits(&mut out, m);
        out.append(":");
        push_two_digits(&mut out, s);
        out.append(".");
        push_three_digits(&mut out, milli);
        proof {
            assert(":"@ =~= seq![':']);
            assert("."@ =~= seq!['.']);
            assert(out@ =~= timestamp_display(self.timestamp));
        }
        out
    }

    /// The one-line headline shown for the event: its time of day and level
    /// in brackets, followed by the formatted `message` field when the event
    /// carries one.
    pub fn headline(&self) -> (r: String)
        ensures
            r@ == headline_of(self),
    {
        proof {
            reveal_strlit("[");
            reveal_strlit("] [");
            reveal_strlit("]");
            reveal_strlit(" ");
            reveal_strlit("message");
        }
        let mut out = String::from_str("[");
        let ts = self.format_timestamp();
        out.append(ts.as_str());
        out.append("] [");
        let lv = self.level.display();
        out.append(lv.as_str());
        out.append("]");
        proof {
            assert("message"@ =~= message_name());
        }
        match self.field("message") {
            Option::Some(message) => {
                out.append(" ");
                let text = message.format();
                out.append(text.as_str());
                proof {
                    assert(out@ =~= headline_of(self));
                }
                out
            },
            Option::None => {
                proof {
                    assert(out@ =~= headline_of(self));
                }
                out
            },
        }
    }
}

/// What `headline` renders: `[HH:MM:SS.mmm] [LEVEL]`, then a space and the
/// formatted `message` field when the event has one.
pub open spec fn headline_of(e: &Event) -> Seq<char> {
    let head = seq!['['] + timestamp_display(e.timestamp) + seq![']', ' ', '[']
        + e.level.display_seq() + seq![']'];
    match lookup(e.fields@, message_name()) {
        Option::Some(f) => head + seq![' '] + format_of(f@),
        Option::None => head,
    }
}

} // verus!
