//! Cutting characters from the ends of a text.

use vstd::prelude::*;

verus! {

/// `s` without the characters at its start that pass `edge`.
pub open spec fn trim_start(s: Seq<char>, edge: spec_fn(char) -> bool) -> Seq<char>
    decreases s.len(),
{
    if s.len() > 0 && edge(s.first()) {
        trim_start(s.drop_first(), edge)
    } else {
        s
    }
}

/// `s` without the characters at its end that pass `edge`.
pub open spec fn trim_end(s: Seq<char>, edge: spec_fn(char) -> bool) -> Seq<char>
    decreases s.len(),
{
    if s.len() > 0 && edge(s.last()) {
        trim_end(s.drop_last(), edge)
    } else {
        s
    }
}

/// `s` without the characters at its start and at its end that pass
/// `edge`.
pub open spec fn trim(s: Seq<char>, edge: spec_fn(char) -> bool) -> Seq<char> {
    trim_end(trim_start(s, edge), edge)
}

/// Trimming the start cuts at the first character that does not pass.
pub proof fn lemma_trim_start(s: Seq<char>, edge: spec_fn(char) -> bool, i: int)
    requires
        0 <= i <= s.len(),
        forall|k: int| 0 <= k < i ==> edge(#[trigger] s[k]),
        i < s.len() ==> !edge(s[i]),
    ensures
        trim_start(s, edge) == s.skip(i),
    decreases i,
{
    if i == 0 {
        assert(s.skip(0) =~= s);
    } else {
        let rest = s.drop_first();
        assert forall|k: int| 0 <= k < i - 1 implies edge(#[trigger] rest[k]) by {
            assert(rest[k] == s[k + 1]);
        }
        lemma_trim_start(rest, edge, i - 1);
        assert(rest.skip(i - 1) =~= s.skip(i));
    }
}

/// Trimming the end cuts behind the last character that does not pass.
pub proof fn lemma_trim_end(s: Seq<char>, edge: spec_fn(char) -> bool, j: int)
    requires
        0 <= j <= s.len(),
        forall|k: int| j <= k < s.len() ==> edge(#[trigger] s[k]),
        j > 0 ==> !edge(s[j - 1]),
    ensures
        trim_end(s, edge) == s.take(j),
    decreases s.len() - j,
{
    if j == s.len() {
        assert(s.take(j) =~= s);
    } else {
        let rest = s.drop_last();
        assert forall|k: int| j <= k < rest.len() implies edge(#[trigger] rest[k]) by {
            assert(rest[k] == s[k]);
        }
        lemma_trim_end(rest, edge, j);
        assert(rest.take(j) =~= s.take(j));
    }
}

} // verus!
