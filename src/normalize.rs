//! Text folding for application matching: compatibility decomposition,
//! transliteration to ASCII, lower case, control characters blanked, runs of
//! white space squeezed to one space, and the ends trimmed.

use vstd::prelude::*;
use crate::text::{is_white_space, white_space, is_prefix, lower_of, lowercase, push_char, seq_lt, text_eq, text_lt, trim_text, trimmed};
use unicode_normalization::UnicodeNormalization;

verus! {

/// The compatibility decomposition (NFKD) of the text, as
/// `unicode_normalization` computes it.
pub uninterp spec fn nfkd_of(s: Seq<char>) -> Seq<char>;

/// The ASCII transliteration of the text, as `deunicode` computes it.
pub uninterp spec fn deunicode_of(s: Seq<char>) -> Seq<char>;

/// Whether the character is a control character: general category Cc,
/// which is what `char::is_control` tests.
pub open spec fn control_char(c: char) -> bool {
    (c as int) <= 0x1F || (0x7F <= (c as int) && (c as int) <= 0x9F)
}

/// Relies on `unicode_normalization`'s `nfkd`: the decomposition depends on
/// the text alone.
#[verifier::external_body]
fn decompose(s: &str) -> (r: String)
    ensures
        r@ == nfkd_of(s@),
{
    s.nfkd().collect::<String>()
}

/// Relies on `deunicode::deunicode`: the transliteration depends on the text alone.
#[verifier::external_body]
fn transliterate(s: &str) -> (r: String)
    ensures
        r@ == deunicode_of(s@),
{
    deunicode::deunicode(s)
}

/// Whether the character is a control character.
pub fn is_control_char(c: char) -> (r: bool)
    ensures
        r == control_char(c),
{
    let v = c as u32;
    v <= 0x1F || (0x7F <= v && v <= 0x9F)
}

/// Decomposed, transliterated and lower-cased.
pub open spec fn folded(s: Seq<char>) -> Seq<char> {
    lower_of(deunicode_of(nfkd_of(s)))
}

/// The character with control characters blanked to a space.
pub open spec fn blanked(c: char) -> char {
    if control_char(c) {
        ' '
    } else {
        c
    }
}

/// `s` with control characters blanked and each run of white space replaced
/// by one space; `prev_space` tells whether white space came just before.
pub open spec fn squeezed(s: Seq<char>, prev_space: bool) -> Seq<char>
    decreases s.len(),
{
    if s.len() == 0 {
        s
    } else {
        let c = blanked(s[0]);
        let sp = white_space(c);
        if sp && prev_space {
            squeezed(s.drop_first(), true)
        } else {
            seq![if sp { ' ' } else { c }] + squeezed(s.drop_first(), sp)
        }
    }
}

/// The normal form used to match applications.
pub open spec fn norm_spec(s: Seq<char>) -> Seq<char> {
    trimmed(squeezed(folded(s), false))
}

/// The normal form of a query: empty for a blank query, else the normal form
/// of the trimmed query.
pub open spec fn query_norm(s: Seq<char>) -> Seq<char> {
    if trimmed(s).len() == 0 {
        Seq::empty()
    } else {
        norm_spec(trimmed(s))
    }
}

/// What `push_norm` adds: the normal form and a space, or nothing when the
/// normal form is empty.
pub open spec fn norm_part(s: Seq<char>) -> Seq<char> {
    if norm_spec(s).len() > 0 {
        norm_spec(s).push(' ')
    } else {
        Seq::empty()
    }
}

/// At most the first 64 characters of a title, which is what ordering by
/// title looks at.
pub open spec fn title_key(s: Seq<char>) -> Seq<char> {
    if s.len() <= 64 {
        s
    } else {
        s.take(64)
    }
}

/// The order of two titles by their first 64 characters.
pub open spec fn title_order(a: Seq<char>, b: Seq<char>) -> core::cmp::Ordering {
    if seq_lt(title_key(a), title_key(b)) {
        core::cmp::Ordering::Less
    } else if title_key(a) == title_key(b) {
        core::cmp::Ordering::Equal
    } else {
        core::cmp::Ordering::Greater
    }
}

/// The normal form of `s`.
pub fn norm(s: &str) -> (r: String)
    ensures
        r@ == norm_spec(s@),
{
    let d = decompose(s);
    let t = transliterate(d.as_str());
    let f = lowercase(t.as_str());
    let fs: &str = f.as_str();
    let n = fs.unicode_len();
    let mut out = String::new();
    let mut prev_space = false;
    let mut i: usize = 0;
    assert(fs@.skip(0) =~= fs@);
    while i < n
        invariant
            n == fs@.len(),
            fs@ == folded(s@),
            0 <= i <= n,
            out@ + squeezed(fs@.skip(i as int), prev_space) == squeezed(fs@, false),
        decreases n - i,
    {
        let ghost rest = fs@.skip(i as int);
        assert(rest.drop_first() =~= fs@.skip(i + 1));
        let raw = fs.get_char(i);
        let c = if is_control_char(raw) {
            ' '
        } else {
            raw
        };
        let space = is_white_space(c);
        if !(space && prev_space) {
            let ghost before = out@;
            push_char(&mut out, if space { ' ' } else { c });
            assert(out@ + squeezed(rest.drop_first(), space) =~= before + squeezed(rest, prev_space));
        }
        prev_space = space;
        i = i + 1;
    }
    assert(fs@.skip(n as int) =~= Seq::<char>::empty());
    assert(out@ =~= squeezed(fs@, false));
    let r = trim_text(out.as_str());
    String::from_str(r)
}

/// The normal form of a query (see `query_norm`).
pub fn normalize_query(s: &str) -> (r: String)
    ensures
        r@ == query_norm(s@),
{
    let t = trim_text(s);
    if t.unicode_len() == 0 {
        return String::new();
    }
    norm(t)
}

/// Appends the normal form of `s` and a space to `blob`, unless the normal
/// form is empty.
pub fn push_norm(blob: &mut String, s: &str)
    ensures
        final(blob)@ == old(blob)@ + norm_part(s@),
{
    let normed = norm(s);
    if normed.unicode_len() > 0 {
        blob.append(normed.as_str());
        push_char(blob, ' ');
    } else {
        assert(old(blob)@ + norm_part(s@) =~= old(blob)@);
    }
}

/// Whether the normal form of `hay` starts with the normal form of `q`.
pub fn starts_with_token(hay: &str, q: &str) -> (r: bool)
    ensures
        r == is_prefix(norm_spec(q@), norm_spec(hay@)),
{
    let h = norm(hay);
    let p = norm(q);
    crate::text::starts_with(h.as_str(), p.as_str())
}

/// Orders two titles by their first 64 characters.
pub fn natord(a: &str, b: &str) -> (r: core::cmp::Ordering)
    ensures
        r == title_order(a@, b@),
{
    let ka = title_prefix(a);
    let kb = title_prefix(b);
    if text_lt(ka, kb) {
        core::cmp::Ordering::Less
    } else if text_eq(ka, kb) {
        core::cmp::Ordering::Equal
    } else {
        core::cmp::Ordering::Greater
    }
}

/// The first 64 characters of a title, or all of it when it is shorter.
pub fn title_prefix(s: &str) -> (r: &str)
    ensures
        r@ == title_key(s@),
{
    let n = s.unicode_len();
    if n <= 64 {
        assert(s@.subrange(0, n as int) =~= s@);
        s.substring_char(0, n)
    } else {
        s.substring_char(0, 64)
    }
}

} // verus!
