//! Names of decorated ports, and the saturating counters the decorators
//! keep.

use crate::text::owned;
use vstd::prelude::*;

verus! {

/// `name` is `kind(inner)` for some inner port name.
pub open spec fn decorated_name(name: Seq<char>, kind: Seq<char>) -> bool {
    &&& name.len() >= kind.len() + 2
    &&& name.take(kind.len() + 1int) == kind.push('(')
    &&& name.last() == ')'
}

/// `x + 1`, stopping at the largest `u32`.
pub open spec fn saturating_inc(x: u32) -> u32 {
    if x == u32::MAX {
        x
    } else {
        (x + 1) as u32
    }
}

/// The full name `kind(inner)`.
pub fn decorate(kind: &str, inner: &str) -> (s: String)
    ensures
        s@ == kind@ + "("@ + inner@ + ")"@,
        exists|i: Seq<char>| s@ == kind@ + "("@ + i + ")"@,
{
    let mut s = owned(kind);
    s.append("(");
    s.append(inner);
    s.append(")");
    s
}

pub proof fn lemma_decorated_name_of(s: Seq<char>, kind: Seq<char>)
    requires
        exists|inner: Seq<char>| s == kind + "("@ + inner + ")"@,
    ensures
        decorated_name(s, kind),
{
    reveal_strlit("(");
    reveal_strlit(")");
    let inner = choose|inner: Seq<char>| s == kind + "("@ + inner + ")"@;
    assert(s.take(kind.len() + 1int) =~= kind.push('('));
}

} // verus!
