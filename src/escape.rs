//! Escaping of token candidates for a CSS string or selector.
use vstd::prelude::*;
use crate::text::{chars_of, string_of};

verus! {

/// The characters with a meaning of their own inside a CSS string or
/// selector: the backslash and the ASCII punctuation that CSS reserves.
pub open spec fn css_special(c: char) -> bool {
    c == '\\' || c == '!' || c == '"' || c == '#' || c == '$' || c == '%' || c == '&'
        || c == '\'' || c == '(' || c == ')' || c == '*' || c == '+' || c == ','
        || c == '-' || c == '.' || c == '/' || c == ':' || c == ';' || c == '<'
        || c == '=' || c == '>' || c == '?' || c == '@' || c == '[' || c == ']'
        || c == '^' || c == '`' || c == '{' || c == '|' || c == '}' || c == '~'
}

/// One character escaped: a special character gets a backslash before it.
pub open spec fn escape_char(c: char) -> Seq<char> {
    if css_special(c) {
        seq!['\\', c]
    } else {
        seq![c]
    }
}

/// A text escaped character by character.
pub open spec fn escaped(s: Seq<char>) -> Seq<char>
    decreases s.len(),
{
    if s.len() == 0 {
        Seq::empty()
    } else {
        escaped(s.drop_last()) + escape_char(s.last())
    }
}

/// Whether some character of `s` is special.
pub open spec fn has_special(s: Seq<char>) -> bool {
    exists|i: int| 0 <= i < s.len() && css_special(#[trigger] s[i])
}

fn is_css_special(c: char) -> (r: bool)
    ensures
        r == css_special(c),
{
    c == '\\' || c == '!' || c == '"' || c == '#' || c == '$' || c == '%' || c == '&'
        || c == '\'' || c == '(' || c == ')' || c == '*' || c == '+' || c == ','
        || c == '-' || c == '.' || c == '/' || c == ':' || c == ';' || c == '<'
        || c == '=' || c == '>' || c == '?' || c == '@' || c == '[' || c == ']'
        || c == '^' || c == '`' || c == '{' || c == '|' || c == '}' || c == '~'
}

/// Escapes a sequence of characters.
pub fn escape_chars(s: &Vec<char>) -> (r: Vec<char>)
    ensures
        r@ == escaped(s@),
{
    let mut out: Vec<char> = Vec::new();
    let mut i: usize = 0;
    while i < s.len()
        invariant
            i <= s@.len(),
            out@ == escaped(s@.take(i as int)),
        decreases s@.len() - i,
    {
        let c = s[i];
        let ghost before = out@;
        if is_css_special(c) {
            out.push('\\');
        }
        out.push(c);
        i = i + 1;
        assert(s@.take(i as int).drop_last() =~= s@.take(i - 1));
        assert(out@ =~= before + escape_char(c));
    }
    assert(s@.take(s@.len() as int) =~= s@);
    out
}

/// Escapes a text for use inside a CSS string or selector: every special
/// character, the backslash included, is preceded by a backslash.
pub fn escape_for_css(unescaped: &str) -> (r: String)
    ensures
        r@ == escaped(unescaped@),
{
    let cs = chars_of(unescaped);
    let out = escape_chars(&cs);
    string_of(&out)
}

/// Escaping a special character gives that character after one backslash.
pub proof fn lemma_escape_special_char(c: char)
    requires
        css_special(c),
    ensures
        escaped(seq![c]) == seq!['\\', c],
{
    let s = seq![c];
    assert(s.drop_last() =~= Seq::<char>::empty());
    assert(escaped(s.drop_last()) == Seq::<char>::empty());
    assert(escaped(s) =~= seq!['\\', c]);
}

proof fn lemma_escaped_grows(s: Seq<char>)
    ensures
        escaped(s).len() >= s.len(),
        has_special(s) ==> escaped(s).len() > s.len() && has_special(escaped(s)),
    decreases s.len(),
{
    if s.len() > 0 {
        let p = s.drop_last();
        lemma_escaped_grows(p);
        let e = escaped(s);
        assert(e == escaped(p) + escape_char(s.last()));
        if has_special(s) {
            let i = choose|i: int| 0 <= i < s.len() && css_special(#[trigger] s[i]);
            if i == s.len() - 1 {
                assert(e[escaped(p).len() as int] == '\\');
                assert(css_special(e[escaped(p).len() as int]));
            } else {
                assert(p[i] == s[i]);
                assert(has_special(p));
                let j = choose|j: int| 0 <= j < escaped(p).len() && css_special(#[trigger] escaped(p)[j]);
                assert(e[j] == escaped(p)[j]);
            }
        }
    }
}

/// Escaping is not idempotent: escaping an escaped text that holds a special
/// character escapes the added backslashes again, so the result differs.
pub proof fn lemma_escape_not_idempotent(s: Seq<char>)
    requires
        has_special(s),
    ensures
        escaped(escaped(s)) != escaped(s),
{
    lemma_escaped_grows(s);
    lemma_escaped_grows(escaped(s));
}

} // verus!
