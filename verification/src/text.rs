//! Facts about texts joined by a separator.

use vstd::prelude::*;

verus! {

/// Two texts joined by `sep`, the first free of `sep`, give back both parts: where
/// `a1 + sep + b1 == a2 + sep + b2` and neither `a1` nor `a2` holds `sep`, the parts are
/// equal.
pub proof fn lemma_split_at_separator(a1: Seq<char>, b1: Seq<char>, a2: Seq<char>, b2: Seq<char>, sep: char)
    requires
        !a1.contains(sep),
        !a2.contains(sep),
        a1 + seq![sep] + b1 == a2 + seq![sep] + b2,
    ensures
        a1 == a2,
        b1 == b2,
{
    let t = a1 + seq![sep] + b1;
    let u = a2 + seq![sep] + b2;
    assert(t[a1.len() as int] == sep);
    assert(u[a2.len() as int] == sep);
    if a1.len() < a2.len() {
        assert(u[a1.len() as int] == a2[a1.len() as int]);
        assert(a2.contains(sep));
    } else if a2.len() < a1.len() {
        assert(t[a2.len() as int] == a1[a2.len() as int]);
        assert(a1.contains(sep));
    }
    assert(a1 =~= t.subrange(0, a1.len() as int));
    assert(a2 =~= u.subrange(0, a2.len() as int));
    assert(b1 =~= t.subrange((a1.len() + 1) as int, t.len() as int));
    assert(b2 =~= u.subrange((a2.len() + 1) as int, u.len() as int));
}

/// A common beginning can be taken off: `p + x == p + y` gives `x == y`.
pub proof fn lemma_drop_common_prefix(p: Seq<char>, x: Seq<char>, y: Seq<char>)
    requires
        p + x == p + y,
    ensures
        x == y,
{
    assert(x =~= (p + x).subrange(p.len() as int, (p + x).len() as int));
    assert(y =~= (p + y).subrange(p.len() as int, (p + y).len() as int));
}

} // verus!
