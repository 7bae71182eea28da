//! Text utilities: whitespace trimming, slug and tag normalisation, and the
//! literal parsers used by the header codec.

use crate::errors::{ApcError, ApcResult};
use vstd::prelude::*;

verus! {

/// Characters with the Unicode `White_Space` property, the set that
/// `char::is_whitespace` tests.
pub open spec fn is_ws(c: char) -> bool {
    let u = c as u32;
    (0x9 <= u && u <= 0xd) || u == 0x20 || u == 0x85 || u == 0xa0 || u == 0x1680 || (0x2000 <= u
        && u <= 0x200a) || u == 0x2028 || u == 0x2029 || u == 0x202f || u == 0x205f || u == 0x3000
}

/// Whether `c` is white space (`char::is_whitespace`).
pub fn is_white_space(c: char) -> (r: bool)
    ensures
        r == is_ws(c),
{
    let u = c as u32;
    (0x9 <= u && u <= 0xd) || u == 0x20 || u == 0x85 || u == 0xa0 || u == 0x1680 || (0x2000 <= u
        && u <= 0x200a) || u == 0x2028 || u == 0x2029 || u == 0x202f || u == 0x205f || u == 0x3000
}

/// The classes of characters that the trimming helpers remove.
#[derive(Clone, Copy, Debug, PartialEq, Eq)]
pub enum CharClass {
    Space,
    Quote,
    Bracket,
}

/// Whether `c` belongs to the class `k`.
pub open spec fn in_class(k: CharClass, c: char) -> bool {
    match k {
        CharClass::Space => is_ws(c),
        CharClass::Quote => c == '"',
        CharClass::Bracket => c == '[' || c == ']',
    }
}

/// Whether `c` belongs to the class `k`.
pub fn class_has(k: CharClass, c: char) -> (r: bool)
    ensures
        r == in_class(k, c),
{
    match k {
        CharClass::Space => is_white_space(c),
        CharClass::Quote => c == '"',
        CharClass::Bracket => c == '[' || c == ']',
    }
}

/// `s` without its leading characters of class `k`.
pub open spec fn strip_start(s: Seq<char>, k: CharClass) -> Seq<char>
    decreases s.len(),
{
    if s.len() > 0 && in_class(k, s[0]) {
        strip_start(s.drop_first(), k)
    } else {
        s
    }
}

/// `s` without its trailing characters of class `k`.
pub open spec fn strip_end(s: Seq<char>, k: CharClass) -> Seq<char>
    decreases s.len(),
{
    if s.len() > 0 && in_class(k, s.last()) {
        strip_end(s.drop_last(), k)
    } else {
        s
    }
}

/// `s` without leading and trailing characters of class `k`
/// (`str::trim_matches`; for `Space`, `str::trim`).
pub open spec fn strip(s: Seq<char>, k: CharClass) -> Seq<char> {
    strip_end(strip_start(s, k), k)
}

/// `s` without leading and trailing white space.
pub open spec fn trim(s: Seq<char>) -> Seq<char> {
    strip(s, CharClass::Space)
}

/// The lower-case form of a text (`str::to_lowercase`).
pub uninterp spec fn lower_of(s: Seq<char>) -> Seq<char>;

/// Relies on str::to_lowercase: the lower-case form of the text, in the
/// sense of Unicode's Lowercase property; it depends on the characters alone.
#[verifier::external_body]
fn to_lowercase(s: &str) -> (r: String)
    ensures
        r@ == lower_of(s@),
        r@.len() == 0 <==> s@.len() == 0,
{
    s.to_lowercase()
}

/// Relies on String::push: the character is appended at the end.
#[verifier::external_body]
pub(crate) fn push_char(s: &mut String, c: char)
    ensures
        final(s)@ == old(s)@.push(c),
{
    s.push(c)
}

/// The characters of `s`, in order.
pub fn chars_of(s: &str) -> (r: Vec<char>)
    ensures
        r@ == s@,
{
    let n = s.unicode_len();
    let mut v: Vec<char> = Vec::new();
    let mut i: usize = 0;
    while i < n
        invariant
            n == s@.len(),
            i <= n,
            v@ == s@.subrange(0, i as int),
        decreases n - i,
    {
        v.push(s.get_char(i));
        i += 1;
        assert(v@ =~= s@.subrange(0, i as int));
    }
    assert(v@ =~= s@);
    v
}

/// The characters `v[from..to]`.
pub fn slice_vec(v: &Vec<char>, from: usize, to: usize) -> (r: Vec<char>)
    requires
        from <= to <= v@.len(),
    ensures
        r@ == v@.subrange(from as int, to as int),
{
    let mut r: Vec<char> = Vec::new();
    let mut i: usize = from;
    while i < to
        invariant
            from <= i <= to <= v@.len(),
            r@ == v@.subrange(from as int, i as int),
        decreases to - i,
    {
        r.push(v[i]);
        i += 1;
        assert(r@ =~= v@.subrange(from as int, i as int));
    }
    r
}

/// The characters of `v[from..to]` as a string.
pub fn string_of_range(v: &Vec<char>, from: usize, to: usize) -> (r: String)
    requires
        from <= to <= v@.len(),
    ensures
        r@ == v@.subrange(from as int, to as int),
{
    let mut s = String::new();
    let mut i: usize = from;
    while i < to
        invariant
            from <= i <= to <= v@.len(),
            s@ == v@.subrange(from as int, i as int),
        decreases to - i,
    {
        push_char(&mut s, v[i]);
        i += 1;
        assert(s@ =~= v@.subrange(from as int, i as int));
    }
    s
}

/// The characters of `v` as a string.
pub fn string_of(v: &Vec<char>) -> (r: String)
    ensures
        r@ == v@,
{
    let r = string_of_range(v, 0, v.len());
    assert(v@.subrange(0, v@.len() as int) =~= v@);
    r
}

/// Bounds `(a, b)` with `v[a..b]` equal to `strip(v, k)`.
pub fn strip_bounds(v: &Vec<char>, k: CharClass) -> (r: (usize, usize))
    ensures
        r.0 <= r.1 <= v@.len(),
        v@.subrange(r.0 as int, r.1 as int) == strip(v@, k),
{
    let n = v.len();
    let mut a: usize = 0;
    assert(v@.subrange(0, n as int) =~= v@);
    while a < n && class_has(k, v[a])
        invariant
            a <= n == v@.len(),
            strip_start(v@, k) == strip_start(v@.subrange(a as int, n as int), k),
        decreases n - a,
    {
        assert(v@.subrange(a as int, n as int).drop_first() =~= v@.subrange(a + 1, n as int));
        a += 1;
    }
    assert(strip_start(v@, k) == v@.subrange(a as int, n as int));
    let mut b: usize = n;
    while b > a && class_has(k, v[b - 1])
        invariant
            a <= b <= n == v@.len(),
            strip(v@, k) == strip_end(v@.subrange(a as int, b as int), k),
        decreases b,
    {
        assert(v@.subrange(a as int, b as int).drop_last() =~= v@.subrange(a as int, b - 1));
        b -= 1;
    }
    (a, b)
}

/// The characters of `s` without leading and trailing white space.
pub fn trim_chars(s: &str) -> (r: Vec<char>)
    ensures
        r@ == trim(s@),
{
    let v = chars_of(s);
    let (a, b) = strip_bounds(&v, CharClass::Space);
    let mut r: Vec<char> = Vec::new();
    let mut i: usize = a;
    while i < b
        invariant
            a <= i <= b <= v@.len(),
            r@ == v@.subrange(a as int, i as int),
        decreases b - i,
    {
        r.push(v[i]);
        i += 1;
        assert(r@ =~= v@.subrange(a as int, i as int));
    }
    r
}

/// What a character of a lowered slug becomes.
pub open spec fn slug_char(c: char) -> char {
    if c == ' ' || c == '_' {
        '-'
    } else {
        c
    }
}

/// The normal form of a slug: trimmed, in lower case, spaces and
/// underscores turned into hyphens.
pub open spec fn slug_of(s: Seq<char>) -> Seq<char> {
    lower_of(trim(s)).map_values(|c: char| slug_char(c))
}

/// Returns the slug in its normal form.
pub fn slug_updater(slug: &str) -> (r: String)
    ensures
        r@ == slug_of(slug@),
{
    let t = string_of(&trim_chars(slug));
    let l = to_lowercase(t.as_str());
    let v = chars_of(l.as_str());
    let mut s = String::new();
    let mut i: usize = 0;
    while i < v.len()
        invariant
            i <= v@.len(),
            s@ == v@.subrange(0, i as int).map_values(|c: char| slug_char(c)),
        decreases v@.len() - i,
    {
        let c = v[i];
        let d = if c == ' ' || c == '_' {
            '-'
        } else {
            c
        };
        push_char(&mut s, d);
        i += 1;
        assert(s@ =~= v@.subrange(0, i as int).map_values(|c: char| slug_char(c)));
    }
    assert(v@.subrange(0, v@.len() as int) =~= v@);
    s
}

/// Character vectors as plain values.
pub open spec fn views(v: Seq<Vec<char>>) -> Seq<Seq<char>> {
    v.map_values(|p: Vec<char>| p@)
}

/// Strings as plain values.
pub open spec fn string_views(v: Seq<String>) -> Seq<Seq<char>> {
    v.map_values(|p: String| p@)
}

/// The pieces of `s` between occurrences of `c` (`str::split` with a
/// character): one more piece than there are occurrences, empty ones kept.
pub open spec fn split_on(s: Seq<char>, c: char) -> Seq<Seq<char>>
    decreases s.len(),
{
    if s.len() == 0 {
        seq![Seq::empty()]
    } else {
        let prev = split_on(s.drop_last(), c);
        if s.last() == c {
            prev.push(Seq::empty())
        } else {
            prev.update(prev.len() - 1, prev.last().push(s.last()))
        }
    }
}

pub proof fn lemma_split_nonempty(s: Seq<char>, c: char)
    ensures
        split_on(s, c).len() >= 1,
    decreases s.len(),
{
    if s.len() > 0 {
        lemma_split_nonempty(s.drop_last(), c);
    }
}

/// The first piece of a split is what precedes the first separator, and
/// the whole text where there is none.
pub proof fn lemma_split_first(s: Seq<char>, c: char)
    ensures
        split_on(s, c).len() == 1 ==> split_on(s, c)[0] == s,
        split_on(s, c).len() >= 2 ==> split_on(s, c)[0].len() < s.len() && s[split_on(s, c)[0].len() as int]
            == c && s.subrange(0, split_on(s, c)[0].len() as int) == split_on(s, c)[0],
    decreases s.len(),
{
    if s.len() > 0 {
        let t = s.drop_last();
        lemma_split_first(t, c);
        lemma_split_nonempty(t, c);
        let prev = split_on(t, c);
        if prev.len() == 1 {
            assert(t.push(s.last()) =~= s);
            assert(s.subrange(0, t.len() as int) =~= t);
        } else {
            assert(s.subrange(0, prev[0].len() as int) =~= t.subrange(0, prev[0].len() as int));
        }
    }
}

/// Splits `v` at each occurrence of `c`.
pub fn split_chars(v: &Vec<char>, c: char) -> (r: Vec<Vec<char>>)
    ensures
        views(r@) == split_on(v@, c),
{
    let mut done: Vec<Vec<char>> = Vec::new();
    let mut cur: Vec<char> = Vec::new();
    let mut i: usize = 0;
    assert(v@.subrange(0, 0) =~= Seq::<char>::empty());
    assert(views(done@).push(cur@) =~= split_on(v@.subrange(0, 0), c));
    while i < v.len()
        invariant
            i <= v@.len(),
            views(done@).push(cur@) == split_on(v@.subrange(0, i as int), c),
        decreases v@.len() - i,
    {
        let ghost before = v@.subrange(0, i as int);
        let ghost after = v@.subrange(0, i + 1);
        assert(after.drop_last() =~= before);
        let x = v[i];
        if x == c {
            done.push(cur);
            cur = Vec::new();
            assert(views(done@).push(cur@) =~= split_on(after, c));
        } else {
            cur.push(x);
            assert(views(done@).push(cur@) =~= split_on(after, c));
        }
        i += 1;
    }
    assert(v@.subrange(0, v@.len() as int) =~= v@);
    done.push(cur);
    assert(views(done@) =~= split_on(v@, c));
    done
}

/// A piece of a tag list as a tag: trimmed, in lower case.
pub open spec fn tag_of(p: Seq<char>) -> Seq<char> {
    lower_of(trim(p))
}

/// The tags in a separated list: each piece trimmed and in lower case, empty
/// pieces dropped, order kept.
pub open spec fn tags_of(s: Seq<char>, sep: char) -> Seq<Seq<char>> {
    split_on(s, sep).map_values(|p: Seq<char>| tag_of(p)).filter(|t: Seq<char>| t.len() > 0)
}

/// `v` without leading and trailing white space.
pub fn trim_vec(v: &Vec<char>) -> (r: Vec<char>)
    ensures
        r@ == trim(v@),
{
    let (a, b) = strip_bounds(v, CharClass::Space);
    let mut r: Vec<char> = Vec::new();
    let mut i: usize = a;
    while i < b
        invariant
            a <= i <= b <= v@.len(),
            r@ == v@.subrange(a as int, i as int),
        decreases b - i,
    {
        r.push(v[i]);
        i += 1;
        assert(r@ =~= v@.subrange(a as int, i as int));
    }
    r
}

/// Splits a separated list of tags into normalised tags.
pub fn tags_updater(str_tags: &str, separated_by: char) -> (r: Vec<String>)
    ensures
        string_views(r@) == tags_of(str_tags@, separated_by),
{
    let v = chars_of(str_tags);
    let pieces = split_chars(&v, separated_by);
    let ghost ps = split_on(v@, separated_by);
    let mut out: Vec<String> = Vec::new();
    let mut i: usize = 0;
    assert(ps.subrange(0, 0).map_values(|p: Seq<char>| tag_of(p)) =~= Seq::<Seq<char>>::empty());
    proof {
        reveal(Seq::filter);
    }
    assert(string_views(out@) =~= ps.subrange(0, 0).map_values(|p: Seq<char>| tag_of(p)).filter(
        |t: Seq<char>| t.len() > 0,
    ));
    while i < pieces.len()
        invariant
            ps == split_on(str_tags@, separated_by),
            i <= pieces@.len() == ps.len(),
            views(pieces@) == ps,
            string_views(out@) == ps.subrange(0, i as int).map_values(|p: Seq<char>| tag_of(p)).filter(
                |t: Seq<char>| t.len() > 0,
            ),
        decreases pieces@.len() - i,
    {
        let ghost m = ps.subrange(0, i + 1).map_values(|p: Seq<char>| tag_of(p));
        assert(m.drop_last() =~= ps.subrange(0, i as int).map_values(|p: Seq<char>| tag_of(p)));
        assert(pieces@[i as int]@ == ps[i as int]);
        let t = string_of(&trim_vec(&pieces[i]));
        let tag = to_lowercase(t.as_str());
        assert(m[i as int] == tag_of(ps[i as int]));
        assert(m.last() == tag@);
        proof {
            reveal(Seq::filter);
        }
        let ghost prev = string_views(out@);
        if tag.unicode_len() > 0 {
            out.push(tag);
            assert(string_views(out@) =~= prev.push(m.last()));
        } else {
            assert(string_views(out@) =~= prev);
        }
        i += 1;
    }
    assert(ps.subrange(0, ps.len() as int) =~= ps);
    out
}

/// The number of characters of `s` once trimmed.
pub fn get_str_length(str_text: &str) -> (r: usize)
    ensures
        r == trim(str_text@).len(),
{
    trim_chars(str_text).len()
}

/// Whether two strings hold the same characters.
pub fn same_text(a: &str, b: &str) -> (r: bool)
    ensures
        r == (a@ == b@),
{
    let n = a.unicode_len();
    if n != b.unicode_len() {
        return false;
    }
    let mut i: usize = 0;
    while i < n
        invariant
            n == a@.len() == b@.len(),
            i <= n,
            a@.subrange(0, i as int) == b@.subrange(0, i as int),
        decreases n - i,
    {
        if a.get_char(i) != b.get_char(i) {
            assert(a@[i as int] != b@[i as int]);
            return false;
        }
        i += 1;
        assert(a@.subrange(0, i as int) =~= a@.subrange(0, i - 1).push(a@[i - 1]));
        assert(b@.subrange(0, i as int) =~= b@.subrange(0, i - 1).push(b@[i - 1]));
    }
    assert(a@.subrange(0, n as int) =~= a@);
    assert(b@.subrange(0, n as int) =~= b@);
    true
}

/// `a + b + c` as a new string.
pub fn concat3(a: &str, b: &str, c: &str) -> (r: String)
    ensures
        r@ == a@ + b@ + c@,
{
    let mut s = String::from_str(a);
    s.append(b);
    s.append(c);
    s
}

/// Whether `s` starts and ends with a double quote (a lone double quote
/// does both).
pub open spec fn is_quoted(s: Seq<char>) -> bool {
    s.len() >= 1 && s[0] == '"' && s.last() == '"'
}

/// The content of a quoted literal: what lies between its two quotes,
/// nothing for a lone double quote.
pub open spec fn unquote(s: Seq<char>) -> Seq<char> {
    if s.len() >= 2 {
        s.subrange(1, s.len() - 1)
    } else {
        Seq::empty()
    }
}

/// The message of the error for a text that is not a quoted literal.
pub open spec fn quote_error(s: Seq<char>) -> Seq<char> {
    "`"@ + s + "` invalid string property, should start and end with '\"'"@
}

fn strip_vec(v: &Vec<char>, k: CharClass) -> (r: Vec<char>)
    ensures
        r@ == strip(v@, k),
{
    let (a, b) = strip_bounds(v, k);
    let mut r: Vec<char> = Vec::new();
    let mut i: usize = a;
    while i < b
        invariant
            a <= i <= b <= v@.len(),
            r@ == v@.subrange(a as int, i as int),
        decreases b - i,
    {
        r.push(v[i]);
        i += 1;
        assert(r@ =~= v@.subrange(a as int, i as int));
    }
    r
}

/// Parses a double-quoted literal given as characters.
pub fn parse_string_chars(v: &Vec<char>) -> (r: ApcResult<String>)
    ensures
        match r {
            Ok(x) => is_quoted(v@) && x@ == unquote(v@),
            Err(e) => !is_quoted(v@) && e is PostProperties && e->PostProperties_0@ == quote_error(v@),
        },
{
    let n = v.len();
    if n >= 1 && v[0] == '"' && v[n - 1] == '"' {
        if n == 1 {
            Ok(String::new())
        } else {
            Ok(string_of_range(v, 1, n - 1))
        }
    } else {
        let shown = string_of(v);
        Err(
            ApcError::PostProperties(
                concat3("`", shown.as_str(), "` invalid string property, should start and end with '\"'"),
            ),
        )
    }
}

/// Parses a double-quoted literal: the text must start and end with a
/// double quote, and what lies between them comes back as it is.
pub fn parse_string(str_string: &str) -> (r: ApcResult<String>)
    ensures
        match r {
            Ok(x) => is_quoted(str_string@) && x@ == unquote(str_string@),
            Err(e) => !is_quoted(str_string@) && e is PostProperties && e->PostProperties_0@
                == quote_error(str_string@),
        },
{
    let v = chars_of(str_string);
    parse_string_chars(&v)
}

/// Whether `s`, trimmed, starts with `[` and ends with `]`.
pub open spec fn is_bracketed(s: Seq<char>) -> bool {
    let t = trim(s);
    t.len() > 0 && t[0] == '[' && t.last() == ']'
}

/// The comma separated pieces inside a bracketed list, each trimmed.
pub open spec fn list_pieces(s: Seq<char>) -> Seq<Seq<char>> {
    split_on(strip(trim(s), CharClass::Bracket), ',').map_values(|p: Seq<char>| trim(p))
}

/// Whether a list literal parses: bracketed, and each piece quoted.
pub open spec fn list_parses(s: Seq<char>) -> bool {
    is_bracketed(s) && forall|i: int| 0 <= i < list_pieces(s).len() ==> is_quoted(#[trigger] list_pieces(s)[i])
}

/// The index of the first piece that is not quoted, or the count.
pub open spec fn first_unquoted(ps: Seq<Seq<char>>) -> int
    decreases ps.len(),
{
    if ps.len() == 0 {
        0
    } else if !is_quoted(ps[0]) {
        0
    } else {
        1 + first_unquoted(ps.drop_first())
    }
}

/// Parses a list of double-quoted literals such as `["a", "b"]`: the text,
/// trimmed, must be bracketed, and each trimmed comma separated piece inside
/// is parsed with `parse_string`, whose error for the first failing piece is
/// handed on.
pub fn parse_str_vec(str_vec: &str) -> (r: ApcResult<Vec<String>>)
    ensures
        match r {
            Ok(xs) => list_parses(str_vec@) && string_views(xs@) == list_pieces(str_vec@).map_values(
                |p: Seq<char>| unquote(p),
            ),
            Err(e) => !list_parses(str_vec@) && e is PostProperties && (is_bracketed(str_vec@)
                ==> e->PostProperties_0@ == quote_error(
                list_pieces(str_vec@)[first_unquoted(list_pieces(str_vec@))],
            )),
        },
{
    let v = chars_of(str_vec);
    let t = trim_vec(&v);
    if !(t.len() > 0 && t[0] == '[' && t[t.len() - 1] == ']') {
        let shown = string_of(&t);
        return Err(
            ApcError::PostProperties(
                concat3("`", shown.as_str(), "` invalid list property, should start with '[' and end with ']'"),
            ),
        );
    }
    let inner = strip_vec(&t, CharClass::Bracket);
    let pieces = split_chars(&inner, ',');
    let ghost raw = split_on(strip(trim(str_vec@), CharClass::Bracket), ',');
    let ghost ps = list_pieces(str_vec@);
    let mut out: Vec<String> = Vec::new();
    let mut i: usize = 0;
    assert(ps.subrange(0, ps.len() as int) =~= ps);
    while i < pieces.len()
        invariant
            ps == list_pieces(str_vec@),
            raw == split_on(strip(trim(str_vec@), CharClass::Bracket), ','),
            ps == raw.map_values(|p: Seq<char>| trim(p)),
            i <= pieces@.len() == ps.len(),
            views(pieces@) == raw,
            is_bracketed(str_vec@),
            forall|j: int| 0 <= j < i ==> is_quoted(#[trigger] ps[j]),
            first_unquoted(ps) == i + first_unquoted(ps.subrange(i as int, ps.len() as int)),
            string_views(out@) == ps.subrange(0, i as int).map_values(|p: Seq<char>| unquote(p)),
        decreases pieces@.len() - i,
    {
        assert(pieces@[i as int]@ == raw[i as int]);
        let piece = trim_vec(&pieces[i]);
        assert(piece@ == ps[i as int]);
        assert(ps.subrange(i as int, ps.len() as int).drop_first() =~= ps.subrange(i + 1, ps.len() as int));
        assert(ps.subrange(i as int, ps.len() as int)[0] == ps[i as int]);
        match parse_string_chars(&piece) {
            Ok(x) => {
                let ghost prev = string_views(out@);
                out.push(x);
                assert(string_views(out@) =~= prev.push(x@));
                i += 1;
                assert(string_views(out@) =~= ps.subrange(0, i as int).map_values(
                    |p: Seq<char>| unquote(p),
                ));
            },
            Err(e) => {
                assert(!is_quoted(ps[i as int]));
                assert(first_unquoted(ps) == i);
                assert(!is_quoted(list_pieces(str_vec@)[i as int]));
                assert(!list_parses(str_vec@));
                return Err(e);
            },
        }
    }
    Ok(out)
}

/// Parses the literal `true` or `false`.
pub fn parse_bool(str_bool: &str) -> (r: ApcResult<bool>)
    ensures
        str_bool@ == "true"@ ==> r == Ok::<bool, ApcError>(true),
        str_bool@ == "false"@ ==> r == Ok::<bool, ApcError>(false),
        str_bool@ != "true"@ && str_bool@ != "false"@ ==> r is Err && r->Err_0 is PostProperties,
{
    proof {
        reveal_strlit("true");
        reveal_strlit("false");
        assert("false"@.len() == 5);
        assert("true"@.len() == 4);
    }
    if same_text(str_bool, "true") {
        Ok(true)
    } else if same_text(str_bool, "false") {
        Ok(false)
    } else {
        Err(ApcError::PostProperties(concat3("`", str_bool, "` invalid boolean")))
    }
}


/// A string that neither starts nor ends with a character of the class is
/// left as it is.
pub proof fn lemma_strip_noop(s: Seq<char>, k: CharClass)
    requires
        s.len() > 0 ==> !in_class(k, s[0]) && !in_class(k, s.last()),
    ensures
        strip(s, k) == s,
{
}

/// A slug in normal form holds no space and no underscore.
pub proof fn lemma_slug_has_no_gaps(s: Seq<char>)
    ensures
        forall|i: int| 0 <= i < slug_of(s).len() ==> #[trigger] slug_of(s)[i] != ' ' && slug_of(s)[i] != '_',
{
}

/// Every tag of a normalised list is non-empty.
pub proof fn lemma_tags_nonempty(s: Seq<char>, sep: char)
    ensures
        forall|i: int| 0 <= i < tags_of(s, sep).len() ==> (#[trigger] tags_of(s, sep)[i]).len() > 0,
{
    let m = split_on(s, sep).map_values(|p: Seq<char>| tag_of(p));
    assert forall|i: int| 0 <= i < tags_of(s, sep).len() implies (#[trigger] tags_of(s, sep)[i]).len() > 0 by {
        m.lemma_filter_pred(|t: Seq<char>| t.len() > 0, i);
    }
}

} // verus!
