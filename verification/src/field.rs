//! A named field's recorded values.
//!
//! A field may legitimately be recorded more than once (for example a counter
//! re-recorded inside a loop); no recording is ever dropped. Formatting joins
//! all recordings in recording order, separated by `", "`.

use vstd::prelude::*;

verus! {

/// The separator placed between two recordings when a field is formatted.
pub open spec fn separator() -> Seq<char> {
    seq![',', ' ']
}

/// The text a sequence of recordings formats to: the recordings in order,
/// joined by `", "`. An empty recording sequence formats to the empty text.
pub open spec fn format_of(vals: Seq<Seq<char>>) -> Seq<char>
    decreases vals.len(),
{
    if vals.len() == 0 {
        Seq::<char>::empty()
    } else if vals.len() == 1 {
        vals[0]
    } else {
        vals[0] + separator() + format_of(vals.drop_first())
    }
}

/// Appending one more recording extends the formatted text by the separator
/// (when there already was a recording) and the new recording.
pub proof fn lemma_format_push(vals: Seq<Seq<char>>, v: Seq<char>)
    ensures
        format_of(vals.push(v)) == if vals.len() == 0 {
            v
        } else {
            format_of(vals) + separator() + v
        },
    decreases vals.len(),
{
    if vals.len() == 0 {
        assert(vals.push(v)[0] == v);
        assert(format_of(vals.push(v)) == v);
    } else if vals.len() == 1 {
        assert(vals.push(v).drop_first() =~= seq![v]);
        assert(format_of(seq![v]) == v);
        assert(format_of(vals.push(v)) =~= vals[0] + separator() + v);
    } else {
        assert(vals.push(v).drop_first() =~= vals.drop_first().push(v));
        lemma_format_push(vals.drop_first(), v);
        assert(format_of(vals.push(v)) =~= format_of(vals) + separator() + v);
    }
}

/// Formatting keeps recording order and separates recordings by `", "`:
/// a field recorded as `a` and then `b` formats to `a`, the separator, `b`.
pub proof fn lemma_format_two(a: Seq<char>, b: Seq<char>)
    ensures
        format_of(seq![a, b]) == a + separator() + b,
{
    assert(seq![a, b].drop_first() =~= seq![b]);
    assert(format_of(seq![b]) == b);
    assert(format_of(seq![a, b]) =~= a + separator() + b);
}

/// The `name: value` line under which one field is shown.
pub fn field_line(name: &str, value: &str) -> (r: String)
    ensures
        r@ == name@ + seq![':', ' '] + value@,
{
    proof {
        reveal_strlit(": ");
    }
    let mut out = name.to_owned();
    out.append(": ");
    out.append(value);
    proof {
        assert(": "@ =~= seq![':', ' ']);
        assert(out@ =~= name@ + seq![':', ' '] + value@);
    }
    out
}

/// One named field's recorded values, in recording order.
///
/// Each recording is kept as the text it was rendered to when recorded;
/// recording never reorders or drops earlier recordings, and formatting
/// never mutates the field.
#[derive(Debug)]
pub struct Field {
    values: Vec<String>,
}

impl View for Field {
    type V = Seq<Seq<char>>;

    closed spec fn view(&self) -> Seq<Seq<char>> {
        self.values.deep_view()
    }
}

impl Field {
    /// A field with no recordings yet.
    pub fn new() -> (r: Field)
        ensures
            r@ =~= Seq::<Seq<char>>::empty(),
    {
        Field { values: Vec::new() }
    }

    /// Appends one more recorded representation; earlier recordings are kept.
    pub fn record(&mut self, value: String)
        ensures
            final(self)@ =~= old(self)@.push(value@),
    {
        self.values.push(value);
    }

    /// How many times the field has been recorded.
    pub fn len(&self) -> (r: usize)
        ensures
            r == self@.len(),
    {
        self.values.len()
    }

    /// The `i`-th recording, in recording order.
    pub fn value(&self, i: usize) -> (r: &String)
        requires
            i < self@.len(),
        ensures
            r@ == self@[i as int],
    {
        &self.values[i]
    }

    /// Formats the field: all recordings in recording order, joined by `", "`.
    /// Reading the field never changes it.
    pub fn format(&self) -> (r: String)
        ensures
            r@ == format_of(self@),
    {
        let mut out = String::new();
        let n = self.values.len();
        let mut i: usize = 0;
        proof {
            assert(self@.take(0) =~= Seq::<Seq<char>>::empty());
        }
        while i < n
            invariant
                n == self@.len(),
                i <= n,
                self@ == self.values.deep_view(),
                out@ == format_of(self@.take(i as int)),
            decreases n - i,
        {
            if i > 0 {
                proof {
                    reveal_strlit(", ");
                    assert(", "@ =~= separator());
                }
                out.append(", ");
            }
            out.append(self.values[i].as_str());
            proof {
                assert(self@.take(i + 1) =~= self@.take(i as int).push(self@[i as int]));
                lemma_format_push(self@.take(i as int), self@[i as int]);
            }
            i = i + 1;
        }
        proof {
            assert(self@.take(n as int) =~= self@);
        }
        out
    }
}

} // verus!
