//! Text that goes into a diagram: label escaping and decimal numerals.

use vstd::prelude::*;
use vstd::string::StringExecFns;

verus! {

/// `String::push` of the standard library: the string grows by exactly the
/// given character, at its end.
pub assume_specification[ String::push ](s: &mut String, c: char)
    ensures
        final(s)@ == old(s)@.push(c),
;

/// The characters that would break a label inside a diagram.
pub open spec fn is_unsafe(c: char) -> bool {
    c == '"' || c == '&' || c == '<' || c == '>' || c == '|'
}

/// What one character of a label becomes in the diagram: its entity code if
/// it is unsafe, itself otherwise.
pub open spec fn escape(c: char) -> Seq<char> {
    if c == '"' {
        "#quot;"@
    } else if c == '&' {
        "#amp;"@
    } else if c == '<' {
        "#lt;"@
    } else if c == '>' {
        "#gt;"@
    } else if c == '|' {
        "#124;"@
    } else {
        seq![c]
    }
}

/// A label with every character escaped, in order.
pub open spec fn sanitized(s: Seq<char>) -> Seq<char>
    decreases s.len(),
{
    if s.len() == 0 {
        Seq::empty()
    } else {
        sanitized(s.drop_last()) + escape(s.last())
    }
}

/// The decimal digit for a value below ten.
pub open spec fn digit(d: nat) -> char {
    if d == 0 {
        '0'
    } else if d == 1 {
        '1'
    } else if d == 2 {
        '2'
    } else if d == 3 {
        '3'
    } else if d == 4 {
        '4'
    } else if d == 5 {
        '5'
    } else if d == 6 {
        '6'
    } else if d == 7 {
        '7'
    } else if d == 8 {
        '8'
    } else {
        '9'
    }
}

/// The decimal numeral of `n`, without sign or leading zeros.
pub open spec fn decimal(n: nat) -> Seq<char>
    decreases n,
{
    if n < 10 {
        seq![digit(n)]
    } else {
        decimal(n / 10).push(digit(n % 10))
    }
}

/// Escaping is done character by character, so it distributes over
/// appending one character.
pub proof fn lemma_sanitized_push(s: Seq<char>, c: char)
    ensures
        sanitized(s.push(c)) == sanitized(s) + escape(c),
{
    assert(s.push(c).drop_last() =~= s);
}

/// Escapes a label for use inside a diagram node.
pub fn sanitize(text: &str) -> (r: String)
    ensures
        r@ == sanitized(text@),
{
    let mut out = String::new();
    for c in it: text.chars()
        invariant
            it.seq() == text@,
            out@ == sanitized(it.seq().take(it.index() as int)),
    {
        proof {
            let done = it.seq().take(it.index() as int);
            lemma_sanitized_push(done, c);
            assert(it.seq().take(it.index() + 1) =~= done.push(c));
        }
        if c == '"' {
            out.append("#quot;");
        } else if c == '&' {
            out.append("#amp;");
        } else if c == '<' {
            out.append("#lt;");
        } else if c == '>' {
            out.append("#gt;");
        } else if c == '|' {
            out.append("#124;");
        } else {
            out.push(c);
        }
    }
    proof {
        assert(text@.take(text@.len() as int) =~= text@);
    }
    out
}

fn digit_char(d: u64) -> (c: char)
    requires
        d < 10,
    ensures
        c == digit(d as nat),
{
    if d == 0 {
        '0'
    } else if d == 1 {
        '1'
    } else if d == 2 {
        '2'
    } else if d == 3 {
        '3'
    } else if d == 4 {
        '4'
    } else if d == 5 {
        '5'
    } else if d == 6 {
        '6'
    } else if d == 7 {
        '7'
    } else if d == 8 {
        '8'
    } else {
        '9'
    }
}

/// Appends the decimal numeral of `n` to `out`.
pub fn push_decimal(out: &mut String, n: u64)
    ensures
        final(out)@ == old(out)@ + decimal(n as nat),
    decreases n,
{
    if n >= 10 {
        push_decimal(out, n / 10);
    }
    out.push(digit_char(n % 10));
    proof {
        if n >= 10 {
            assert(old(out)@ + decimal((n / 10) as nat).push(digit((n % 10) as nat))
                =~= (old(out)@ + decimal((n / 10) as nat)).push(digit((n % 10) as nat)));
        } else {
            assert(old(out)@ + seq![digit(n as nat)] =~= old(out)@.push(digit(n as nat)));
        }
    }
}

} // verus!
