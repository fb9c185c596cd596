//! Quote escaping for gettext string literals.

use vstd::prelude::*;

verus! {

/// What one character becomes inside a gettext string literal: a double
/// quote gets a backslash in front of it, any other character stays.
pub open spec fn escaped_char(c: char) -> Seq<char> {
    if c == '"' {
        seq!['\\', '"']
    } else {
        seq![c]
    }
}

/// The text `s` with every double quote preceded by a backslash.
pub open spec fn escaped(s: Seq<char>) -> Seq<char>
    decreases s.len(),
{
    if s.len() == 0 {
        Seq::empty()
    } else {
        escaped(s.drop_last()) + escaped_char(s.last())
    }
}

proof fn lemma_escaped_concat(a: Seq<char>, b: Seq<char>)
    ensures
        escaped(a + b) == escaped(a) + escaped(b),
    decreases b.len(),
{
    if b.len() == 0 {
        assert(a + b =~= a);
        assert(escaped(a) + escaped(b) =~= escaped(a));
    } else {
        lemma_escaped_concat(a, b.drop_last());
        assert((a + b).drop_last() =~= a + b.drop_last());
        assert(escaped(a + b) =~= escaped(a) + escaped(b));
    }
}

proof fn lemma_escaped_without_quotes(s: Seq<char>)
    requires
        forall|i: int| 0 <= i < s.len() ==> s[i] != '"',
    ensures
        escaped(s) == s,
    decreases s.len(),
{
    if s.len() > 0 {
        lemma_escaped_without_quotes(s.drop_last());
        assert(escaped(s) =~= s);
    }
}

/// Escaping alters double quotes and nothing else: it works character by
/// character (the escape of a concatenation is the concatenation of the
/// escapes), a double quote becomes a backslash followed by the quote, any
/// other character is kept, and a text without double quotes comes out as it
/// went in.
pub proof fn escaping_alters_only_quotes(a: Seq<char>, b: Seq<char>, c: char)
    ensures
        escaped(a + b) == escaped(a) + escaped(b),
        c == '"' ==> escaped(seq![c]) == seq!['\\', '"'],
        c != '"' ==> escaped(seq![c]) == seq![c],
        (forall|i: int| 0 <= i < a.len() ==> a[i] != '"') ==> escaped(a) == a,
{
    lemma_escaped_concat(a, b);
    let one = seq![c];
    assert(one.drop_last() =~= Seq::<char>::empty());
    assert(one.last() == c);
    assert(escaped(one.drop_last()) =~= Seq::<char>::empty());
    assert(escaped(one) =~= escaped_char(c));
    if forall|i: int| 0 <= i < a.len() ==> a[i] != '"' {
        lemma_escaped_without_quotes(a);
    }
}

/// Relies on `String::push`: appends one character at the end.
pub assume_specification[ String::push ](s: &mut String, ch: char)
    ensures
        final(s)@ == old(s)@.push(ch),
;

/// Replaces each double quote of `s` with a backslash and a double quote;
/// every other character is copied unchanged.
pub fn escape_quotes(s: &str) -> (r: String)
    ensures
        r@ == escaped(s@),
{
    let mut r = String::new();
    for c in it: s.chars()
        invariant
            it.seq() == s@,
            r@ == escaped(s@.take(it.index() as int)),
    {
        proof {
            let k = it.index() as int;
            assert(s@.take(k + 1).drop_last() =~= s@.take(k));
        }
        if c == '"' {
            r.push('\\');
        }
        r.push(c);
    }
    proof {
        assert(s@.take(s@.len() as int) =~= s@);
    }
    r
}

} // verus!
