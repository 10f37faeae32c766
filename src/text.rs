//! The separator of cash-style addresses and what the library reads of a
//! text around it.
use vstd::prelude::*;

verus! {

/// Number of separators (`:`) in a text.
pub open spec fn separator_count(s: Seq<char>) -> nat
    decreases s.len(),
{
    if s.len() == 0 {
        0
    } else {
        separator_count(s.drop_last()) + if s.last() == ':' { 1nat } else { 0nat }
    }
}

/// Position of the first separator in a text, or its length when it has none.
pub open spec fn first_separator(s: Seq<char>) -> nat
    decreases s.len(),
{
    if s.len() == 0 {
        0
    } else if s[0] == ':' {
        0
    } else {
        1 + first_separator(s.drop_first())
    }
}

/// The part of a text before its first separator.
pub open spec fn text_before_separator(s: Seq<char>) -> Seq<char> {
    s.take(first_separator(s) as int)
}

/// The text `prefix:payload`.
pub open spec fn with_separator(prefix: Seq<char>, payload: Seq<char>) -> Seq<char> {
    prefix + seq![':'] + payload
}

/// Separators of a concatenation are those of its parts.
pub proof fn lemma_separator_count_concat(a: Seq<char>, b: Seq<char>)
    ensures
        separator_count(a + b) == separator_count(a) + separator_count(b),
    decreases b.len(),
{
    if b.len() > 0 {
        assert((a + b).drop_last() =~= a + b.drop_last());
        lemma_separator_count_concat(a, b.drop_last());
    } else {
        assert(a + b =~= a);
    }
}

/// A text has no separator exactly when none of its characters is one.
pub proof fn lemma_separator_count_zero(s: Seq<char>)
    ensures
        separator_count(s) == 0 <==> forall|i: int| 0 <= i < s.len() ==> s[i] != ':',
    decreases s.len(),
{
    if s.len() > 0 {
        lemma_separator_count_zero(s.drop_last());
        if separator_count(s) == 0 {
            assert forall|i: int| 0 <= i < s.len() implies s[i] != ':' by {
                if i < s.len() - 1 {
                    assert(s[i] == s.drop_last()[i]);
                }
            }
        }
        if forall|i: int| 0 <= i < s.len() ==> s[i] != ':' {
            assert forall|i: int| 0 <= i < s.drop_last().len() implies s.drop_last()[i] != ':' by {
                assert(s.drop_last()[i] == s[i]);
            }
            assert(s[s.len() - 1] != ':');
        }
    }
}

/// In `prefix:payload` with no separator in `prefix`, the text before the
/// first separator is `prefix`.
pub proof fn lemma_text_before_separator(prefix: Seq<char>, payload: Seq<char>)
    requires
        separator_count(prefix) == 0,
    ensures
        first_separator(with_separator(prefix, payload)) == prefix.len(),
        text_before_separator(with_separator(prefix, payload)) == prefix,
    decreases prefix.len(),
{
    let s = with_separator(prefix, payload);
    lemma_separator_count_zero(prefix);
    if prefix.len() == 0 {
        assert(s[0] == ':');
    } else {
        assert(s[0] == prefix[0]);
        let rest = prefix.drop_first();
        assert forall|i: int| 0 <= i < rest.len() implies rest[i] != ':' by {
            assert(rest[i] == prefix[i + 1]);
        }
        lemma_separator_count_zero(rest);
        assert(s.drop_first() =~= with_separator(rest, payload));
        lemma_text_before_separator(rest, payload);
    }
    assert(s.take(prefix.len() as int) =~= prefix);
}

/// Separators in `prefix:payload`.
pub proof fn lemma_with_separator_count(prefix: Seq<char>, payload: Seq<char>)
    ensures
        separator_count(with_separator(prefix, payload)) == separator_count(prefix) + 1
            + separator_count(payload),
{
    lemma_separator_count_concat(prefix + seq![':'], payload);
    lemma_separator_count_concat(prefix, seq![':']);
    let sep = seq![':'];
    assert(sep.drop_last() =~= Seq::<char>::empty());
    assert(separator_count(sep.drop_last()) == 0);
    assert(sep.last() == ':');
    assert(separator_count(sep) == 1);
}

/// Whether a text holds a separator.
pub fn has_separator(s: &str) -> (r: bool)
    ensures
        r == (separator_count(s@) > 0),
{
    let n = s.unicode_len();
    let mut i: usize = 0;
    while i < n
        invariant
            n == s@.len(),
            i <= n,
            forall|j: int| 0 <= j < i ==> s@[j] != ':',
        decreases n - i,
    {
        if s.get_char(i) == ':' {
            proof {
                lemma_separator_count_zero(s@);
            }
            return true;
        }
        i += 1;
    }
    proof {
        lemma_separator_count_zero(s@);
    }
    false
}

} // verus!
