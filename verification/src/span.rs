//! The span chain: nested execution contexts active when an event was
//! recorded.
//!
//! A span holds its own metadata and an optional shared reference to its
//! parent. Chains are immutable once built and reference-counted, so one
//! span may be the parent of many children and may be captured by many
//! events; Rust's ownership discipline makes every chain finite and acyclic
//! by construction.

use std::sync::Arc;

use vstd::prelude::*;

use crate::field::Field;

verus! {

/// One node of the span chain.
pub struct Span {
    /// Subsystem name, used for prefix filtering.
    pub target: String,
    /// The span's own name.
    pub name: String,
    /// The span's own field set, in declaration order, names unique.
    pub fields: Vec<(String, Field)>,
    /// The enclosing span, if any; `None` at a root.
    pub parent: Option<Arc<Span>>,
}

impl Span {
    /// How many ancestors stand above this span; a root has depth `0`.
    pub open spec fn depth(self) -> nat
        decreases self,
    {
        match self.parent {
            Option::None => 0,
            Option::Some(p) => 1 + p.depth(),
        }
    }

    /// The parent as a plain value, if there is one.
    pub open spec fn parent_span(self) -> Option<Span> {
        match self.parent {
            Option::None => Option::None,
            Option::Some(p) => Option::Some(*p),
        }
    }

    /// The full ancestry, in child-to-root order, starting at this span.
    pub open spec fn chain(self) -> Seq<Span>
        decreases self,
    {
        match self.parent {
            Option::None => seq![self],
            Option::Some(p) => seq![self] + p.chain(),
        }
    }

    /// The `target::name` heading under which a span is shown.
    pub fn qualified_name(&self) -> (r: String)
        ensures
            r@ == self.target@ + seq![':', ':'] + self.name@,
    {
        proof {
            reveal_strlit("::");
        }
        let mut out = self.target.clone();
        out.append("::");
        out.append(self.name.as_str());
        proof {
            assert("::"@ =~= seq![':', ':']);
            assert(out@ =~= self.target@ + seq![':', ':'] + self.name@);
        }
        out
    }

    /// The whole ancestry as references, in child-to-root order: the span
    /// itself first, the parentless root last, each ancestor exactly once.
    /// Every call walks a fresh traversal and never mutates the chain.
    pub fn ancestors(&self) -> (r: Vec<&Span>)
        ensures
            r@.len() == self.chain().len(),
            forall|k: int| 0 <= k < r@.len() ==> *(#[trigger] r@[k]) == self.chain()[k],
    {
        let mut v: Vec<&Span> = Vec::new();
        push_chain(self, &mut v);
        proof {
            assert forall|k: int| 0 <= k < v@.len() implies *(v@[k]) == self.chain()[k] by {
                assert(*(v@[0 + k]) == self.chain()[k]);
            }
        }
        v
    }

    /// Ancestry traversal is finite: it visits exactly `depth + 1` spans,
    /// starts at the span itself, follows each parent link exactly once,
    /// and terminates at a span with no parent.
    pub proof fn lemma_chain_shape(&self)
        ensures
            self.chain().len() == self.depth() + 1,
            self.chain()[0] == self,
            forall|i: int|
                0 <= i < self.depth() ==> (#[trigger] self.chain()[i]).parent_span()
                    == Option::Some(self.chain()[i + 1]),
            self.chain()[self.depth() as int].parent_span() is None,
        decreases self,
    {
        match &self.parent {
            Option::None => {},
            Option::Some(p) => {
                p.lemma_chain_shape();
            },
        }
    }
}

/// Appends the chain starting at `s` to `v`, child to root.
fn push_chain<'a>(s: &'a Span, v: &mut Vec<&'a Span>)
    ensures
        final(v)@.len() == old(v)@.len() + s.chain().len(),
        forall|k: int| 0 <= k < old(v)@.len() ==> final(v)@[k] == old(v)@[k],
        forall|k: int|
            0 <= k < s.chain().len() ==> *(#[trigger] final(v)@[old(v)@.len() + k]) == s.chain()[k],
    decreases *s,
{
    v.push(s);
    let ghost v1 = v@;
    match &s.parent {
        Option::None => {
            proof {
                assert(s.chain() =~= seq![*s]);
                assert(v@[old(v)@.len() as int] == s);
            }
        },
        Option::Some(p) => {
            push_chain(p, v);
            proof {
                assert(s.chain() =~= seq![*s] + p.chain());
                assert(v1[old(v)@.len() as int] == s);
                assert(v@[old(v)@.len() as int] == s);
                assert forall|k: int|
                    0 <= k < s.chain().len() implies *(v@[old(v)@.len() + k]) == s.chain()[k] by {
                    if k > 0 {
                        assert(*(v@[v1.len() + (k - 1)]) == p.chain()[k - 1]);
                        assert(s.chain()[k] == p.chain()[k - 1]);
                    }
                }
            }
        },
    }
}

} // verus!
