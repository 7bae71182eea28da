//! The round trip of the post header: decoding the header of an encoded post
//! gives back the post's fields.

use crate::codec::{
    after_key, bool_of, decode_props, is_key_line, is_word_char, has_header, header_of, join_lines, key_names, key_slot, last_segment,
    no_slots, quoted_slot, scan_lines, starts_with, swap_prefix, text_lines, HeaderFault,
    PropsView,
};
use crate::config::Config;
use crate::date::date_of;
use crate::post::{bool_text, escape_char, escaped, encoded, encoded_lines, join_with, site_image, tags_text, PostView};
use crate::text::{
    is_quoted, is_ws, lemma_split_nonempty, lemma_strip_noop, list_parses,
    list_pieces, split_on, strip, strip_end, strip_start, trim, unquote, CharClass,
};
use vstd::prelude::*;

verus! {

/// Splitting at a separator that stands between two texts splits each text
/// on its own.
pub proof fn lemma_split_concat(a: Seq<char>, b: Seq<char>, c: char)
    ensures
        split_on(a + seq![c] + b, c) == split_on(a, c) + split_on(b, c),
    decreases b.len(),
{
    let s = a + seq![c] + b;
    if b.len() == 0 {
        assert(s.drop_last() =~= a);
        assert(split_on(b, c) =~= seq![Seq::<char>::empty()]);
        assert(split_on(s, c) =~= split_on(a, c) + split_on(b, c));
    } else {
        let b2 = b.drop_last();
        lemma_split_concat(a, b2, c);
        assert(s.drop_last() =~= a + seq![c] + b2);
        assert(s.last() == b.last());
        crate::text::lemma_split_nonempty(b2, c);
        crate::text::lemma_split_nonempty(a, c);
        assert(split_on(s, c) =~= split_on(a, c) + split_on(b, c));
    }
}

/// Whether `s` holds no `c`.
pub open spec fn lacks(s: Seq<char>, c: char) -> bool {
    forall|i: int| 0 <= i < s.len() ==> s[i] != c
}

/// A text without the separator is one piece.
pub proof fn lemma_split_none(s: Seq<char>, c: char)
    requires
        lacks(s, c),
    ensures
        split_on(s, c) == seq![s],
    decreases s.len(),
{
    if s.len() > 0 {
        let t = s.drop_last();
        lemma_split_none(t, c);
        assert(s.last() != c) by {
            assert(s[s.len() - 1] == s.last());
        }
        assert(t.push(s.last()) =~= s);
        assert(split_on(s, c) =~= seq![s]);
    } else {
        assert(s =~= Seq::<char>::empty());
        assert(split_on(s, c) =~= seq![s]);
    }
}


/// Lines without newlines come back from their join.
pub proof fn lemma_split_join_lines(ls: Seq<Seq<char>>)
    requires
        ls.len() >= 1,
        forall|i: int| 0 <= i < ls.len() ==> lacks(#[trigger] ls[i], '\n'),
    ensures
        split_on(join_lines(ls), '\n') == ls,
    decreases ls.len(),
{
    if ls.len() == 1 {
        lemma_split_none(ls[0], '\n');
        assert(seq![ls[0]] =~= ls);
    } else {
        let d = ls.drop_last();
        assert forall|i: int| 0 <= i < d.len() implies lacks(#[trigger] d[i], '\n') by {
            assert(d[i] == ls[i]);
        }
        lemma_split_join_lines(d);
        lemma_split_none(ls.last(), '\n');
        lemma_split_concat(join_lines(d), ls.last(), '\n');
        assert(ls =~= d + seq![ls.last()]);
    }
}

/// A text that the header can carry between quotes: no newline.
pub open spec fn carriable(v: Seq<char>) -> bool {
    lacks(v, '\n')
}

/// A line made of `key`, a colon and `rest`, as the decoder reads it.
pub open spec fn keyed(l: Seq<char>, key: Seq<char>, rest: Seq<char>) -> bool {
    &&& split_on(l, ':').len() >= 2
    &&& split_on(l, ':')[0] == key
    &&& after_key(l) == rest
}

/// `v` between double quotes.
pub open spec fn quote(v: Seq<char>) -> Seq<char> {
    seq!['"'] + v + seq!['"']
}

proof fn lemma_trim_space_then(x: Seq<char>)
    requires
        x.len() > 0,
        !is_ws(x[0]),
        !is_ws(x.last()),
    ensures
        trim(seq![' '] + x) == x,
        trim(x) == x,
{
    let y = seq![' '] + x;
    assert(y.drop_first() =~= x);
    assert(strip_start(x, CharClass::Space) == x);
    assert(strip_start(y, CharClass::Space) == x);
    lemma_strip_noop(x, CharClass::Space);
}

/// A quoted text reads back as itself, also behind a space.
proof fn lemma_unquote(v: Seq<char>)
    ensures
        is_quoted(quote(v)),
        unquote(quote(v)) == v,
        trim(seq![' '] + quote(v)) == quote(v),
        trim(quote(v)) == quote(v),
{
    let q = quote(v);
    lemma_trim_space_then(q);
    assert(q.subrange(1, q.len() - 1) =~= v);
}

proof fn lemma_key_words()
    ensures
        forall|k: int, j: int|
            0 <= k < 9 && 0 <= j < key_names()[k].len() ==> is_word_char(#[trigger] key_names()[k][j]),
{
    reveal_strlit("title");
    reveal_strlit("layout");
    reveal_strlit("image");
    reveal_strlit("link");
    reveal_strlit("date");
    reveal_strlit("dateModified");
    reveal_strlit("description");
    reveal_strlit("draft");
    reveal_strlit("tags");
    assert forall|k: int, j: int| 0 <= k < 9 && 0 <= j < key_names()[k].len() implies is_word_char(
        #[trigger] key_names()[k][j],
    ) by {
        let c = key_names()[k][j];
        assert(('a' <= c && c <= 'z') || ('A' <= c && c <= 'Z'));
    }
}

proof fn lemma_key_slots()
    ensures
        forall|k: int| 0 <= k < 9 ==> key_slot(#[trigger] key_names()[k]) == k,
{
    reveal_strlit("title");
    reveal_strlit("layout");
    reveal_strlit("image");
    reveal_strlit("link");
    reveal_strlit("date");
    reveal_strlit("dateModified");
    reveal_strlit("description");
    reveal_strlit("draft");
    reveal_strlit("tags");
    let n = key_names();
    assert(n[2][0] != n[0][0]);
    assert(n[3][0] != n[0][0] && n[3].len() != n[1].len() && n[3][0] != n[2][0]);
    assert(n[4][0] != n[0][0] && n[4].len() != n[1].len() && n[4][0] != n[2][0] && n[4][0] != n[3][0]);
    assert(n[5].len() != n[0].len() && n[5].len() != n[1].len() && n[5].len() != n[2].len() && n[5].len()
        != n[3].len() && n[5].len() != n[4].len());
    assert(n[6].len() != n[0].len() && n[6].len() != n[1].len() && n[6].len() != n[2].len() && n[6].len()
        != n[3].len() && n[6].len() != n[4].len() && n[6].len() != n[5].len());
    assert(n[7][0] != n[0][0] && n[7].len() != n[1].len() && n[7][0] != n[2][0] && n[7].len() != n[3].len()
        && n[7].len() != n[4].len() && n[7].len() != n[5].len() && n[7].len() != n[6].len());
    assert(n[8].len() != n[0].len() && n[8].len() != n[1].len() && n[8][0] != n[2][0] && n[8][0] != n[3][0]
        && n[8][0] != n[4][0] && n[8].len() != n[5].len() && n[8].len() != n[6].len() && n[8][0]
        != n[7][0]);
}

/// The slots after the first `k` lines of a well-formed header.
pub open spec fn slots_upto(rest: Seq<Seq<char>>, k: int) -> Seq<Option<Seq<char>>> {
    Seq::new(9, |i: int| if i < k { Some(trim(rest[i])) } else { None })
}

/// Nine lines, each of the key at its position, a colon, and a rest, scan
/// to the trimmed rests.
proof fn lemma_scan_keyed(ls: Seq<Seq<char>>, rest: Seq<Seq<char>>, k: int)
    requires
        ls.len() == 9,
        rest.len() == 9,
        0 <= k <= 9,
        forall|i: int| 0 <= i < 9 ==> keyed(#[trigger] ls[i], key_names()[i], rest[i]),
    ensures
        scan_lines(ls.subrange(0, k)) == Ok::<Seq<Option<Seq<char>>>, HeaderFault>(slots_upto(rest, k)),
    decreases k,
{
    if k == 0 {
        assert(slots_upto(rest, 0) =~= no_slots());
        assert(ls.subrange(0, 0) =~= Seq::<Seq<char>>::empty());
    } else {
        lemma_scan_keyed(ls, rest, k - 1);
        lemma_key_slots();
        let sub = ls.subrange(0, k);
        assert(sub.drop_last() =~= ls.subrange(0, k - 1));
        assert(sub.last() == ls[k - 1]);
        assert(keyed(ls[k - 1], key_names()[k - 1], rest[k - 1]));
        assert(key_slot(key_names()[k - 1]) == k - 1);
        assert(slots_upto(rest, k - 1).update(k - 1, Some(trim(rest[k - 1]))) =~= slots_upto(rest, k));
    }
}

/// A line `key: rest` with a colon-free key is read at its first colon.
proof fn lemma_key_line(key: Seq<char>, rest: Seq<char>)
    requires
        lacks(key, ':'),
    ensures
        keyed(key + seq![':'] + rest, key, rest),
{
    let l = key + seq![':'] + rest;
    lemma_split_concat(key, rest, ':');
    lemma_split_none(key, ':');
    lemma_split_nonempty(rest, ':');
    assert(split_on(l, ':') =~= seq![key] + split_on(rest, ':'));
    assert(l.subrange(key.len() as int + 1, l.len() as int) =~= rest);
}


proof fn lemma_join_lacks(q: Seq<Seq<char>>, sep: Seq<char>, c: char)
    requires
        lacks(sep, c),
        forall|i: int| 0 <= i < q.len() ==> lacks(#[trigger] q[i], c),
    ensures
        lacks(join_with(q, sep), c),
    decreases q.len(),
{
    if q.len() > 1 {
        let d = q.drop_last();
        assert forall|i: int| 0 <= i < d.len() implies lacks(#[trigger] d[i], c) by {
            assert(d[i] == q[i]);
        }
        lemma_join_lacks(d, sep, c);
        assert(lacks(q.last(), c));
        let j = join_with(q, sep);
        assert(j == join_with(d, sep) + sep + q.last());
    } else if q.len() == 1 {
        assert(lacks(q[0], c));
    }
}

proof fn lemma_join_ends(q: Seq<Seq<char>>, sep: Seq<char>)
    requires
        q.len() >= 1,
        forall|i: int| 0 <= i < q.len() ==> (#[trigger] q[i]).len() > 0,
    ensures
        join_with(q, sep).len() > 0,
        join_with(q, sep)[0] == q[0][0],
        join_with(q, sep).last() == q.last().last(),
    decreases q.len(),
{
    if q.len() > 1 {
        let d = q.drop_last();
        assert forall|i: int| 0 <= i < d.len() implies (#[trigger] d[i]).len() > 0 by {
            assert(d[i] == q[i]);
        }
        lemma_join_ends(d, sep);
        assert(q.last().len() > 0);
    } else {
        assert(q[0].len() > 0);
    }
}

/// The pieces of a list joined with ", " and split at commas.
pub open spec fn list_split(q: Seq<Seq<char>>) -> Seq<Seq<char>> {
    Seq::new(q.len(), |i: int| if i == 0 { q[0] } else { seq![' '] + q[i] })
}

proof fn lemma_split_join_list(q: Seq<Seq<char>>)
    requires
        q.len() >= 1,
        forall|i: int| 0 <= i < q.len() ==> lacks(#[trigger] q[i], ','),
    ensures
        split_on(join_with(q, ", "@), ',') == list_split(q),
    decreases q.len(),
{
    if q.len() == 1 {
        lemma_split_none(q[0], ',');
        assert(seq![q[0]] =~= list_split(q));
    } else {
        reveal_strlit(", ");
        let d = q.drop_last();
        assert forall|i: int| 0 <= i < d.len() implies lacks(#[trigger] d[i], ',') by {
            assert(d[i] == q[i]);
        }
        lemma_split_join_list(d);
        let rest = seq![' '] + q.last();
        assert(lacks(q.last(), ','));
        lemma_split_none(rest, ',');
        assert(join_with(q, ", "@) =~= join_with(d, ", "@) + seq![','] + rest);
        lemma_split_concat(join_with(d, ", "@), rest, ',');
        assert(list_split(d) + seq![rest] =~= list_split(q));
    }
}

/// Whether the list form writes each character of `t` as it is.
pub open spec fn debug_plain(t: Seq<char>) -> bool {
    forall|j: int| 0 <= j < t.len() ==> escape_char(#[trigger] t[j]) == seq![t[j]]
}

/// A tag that the list form can carry: without a newline or a comma, and
/// written as it is.
pub open spec fn carriable_tag(t: Seq<char>) -> bool {
    carriable(t) && lacks(t, ',') && debug_plain(t)
}

/// A tag whose characters are written as they are is written as it is.
proof fn lemma_escaped_plain(t: Seq<char>)
    requires
        debug_plain(t),
    ensures
        escaped(t) == t,
    decreases t.len(),
{
    if t.len() > 0 {
        assert(debug_plain(t.drop_last())) by {
            assert forall|j: int| 0 <= j < t.drop_last().len() implies escape_char(
                #[trigger] t.drop_last()[j],
            ) == seq![t.drop_last()[j]] by {
                assert(t.drop_last()[j] == t[j]);
            }
        }
        lemma_escaped_plain(t.drop_last());
        assert(t.drop_last().push(t.last()) =~= t);
        assert(escape_char(t[t.len() - 1]) == seq![t[t.len() - 1]]);
    }
}

/// The list form of carriable tags reads back as the tags.
proof fn lemma_tags_round(tags: Seq<Seq<char>>)
    requires
        tags.len() > 0,
        forall|i: int| 0 <= i < tags.len() ==> carriable_tag(#[trigger] tags[i]),
    ensures
        lacks(tags_text(tags), '\n'),
        trim(seq![' '] + tags_text(tags)) == tags_text(tags),
        list_parses(tags_text(tags)),
        list_pieces(tags_text(tags)).map_values(|p: Seq<char>| unquote(p)) == tags,
{
    reveal_strlit("\"");
    reveal_strlit("[");
    reveal_strlit("]");
    let q = tags.map_values(|t: Seq<char>| "\""@ + escaped(t) + "\""@);
    assert forall|i: int| 0 <= i < q.len() implies #[trigger] q[i] == quote(tags[i]) by {
        lemma_escaped_plain(tags[i]);
        assert(q[i] =~= quote(tags[i]));
    }
    let j = join_with(q, ", "@);
    let text = tags_text(tags);
    assert(text =~= seq!['['] + j + seq![']']);
    assert forall|i: int| 0 <= i < q.len() implies (#[trigger] q[i]).len() > 0 && lacks(q[i], ',') && lacks(
        q[i],
        '\n',
    ) by {
        assert(q[i] == quote(tags[i]));
        assert(carriable_tag(tags[i]));
    }
    reveal_strlit(", ");
    lemma_join_lacks(q, ", "@, '\n');
    lemma_join_ends(q, ", "@);
    assert(q[0][0] == '"');
    assert(q.last() == quote(tags.last()));
    assert(q.last().last() == '"');
    // The bracketed text neither starts nor ends with white space.
    lemma_trim_space_then(text);
    // Stripping the brackets leaves the joined pieces.
    let k = CharClass::Bracket;
    assert(text.drop_first() =~= j + seq![']']);
    assert(strip_start(text, k) == strip_start(j + seq![']'], k));
    assert((j + seq![']'])[0] == '"');
    assert(strip_start(j + seq![']'], k) == j + seq![']']);
    assert((j + seq![']']).drop_last() =~= j);
    assert(strip_end(j + seq![']'], k) == strip_end(j, k));
    assert(strip_end(j, k) == j);
    assert(strip(trim(text), k) == j);
    lemma_split_join_list(q);
    let ps = list_pieces(text);
    assert(ps == list_split(q).map_values(|p: Seq<char>| trim(p)));
    assert forall|i: int| 0 <= i < ps.len() implies is_quoted(#[trigger] ps[i]) && unquote(ps[i]) == tags[i] by {
        assert(q[i] == quote(tags[i]));
        lemma_unquote(tags[i]);
        assert(ps[i] == trim(list_split(q)[i]));
        assert(ps[i] == quote(tags[i]));
    }
    assert(list_pieces(text).map_values(|p: Seq<char>| unquote(p)) =~= tags);
}


/// A line `key: rest` with a colon-free key and no newline.
proof fn lemma_line(key: Seq<char>, rest: Seq<char>)
    requires
        lacks(key, ':'),
        lacks(key, '\n'),
        lacks(rest, '\n'),
    ensures
        keyed(key + seq![':'] + rest, key, rest),
        lacks(key + seq![':'] + rest, '\n'),
        (key + seq![':'] + rest).len() > 0,
{
    lemma_key_line(key, rest);
    let l = key + seq![':'] + rest;
    assert(l[key.len() as int] == ':');
    assert forall|i: int| 0 <= i < l.len() implies l[i] != '\n' by {
        if i < key.len() {
            assert(l[i] == key[i]);
        } else if i > key.len() {
            assert(l[i] == rest[i - key.len() - 1]);
        }
    }
}

/// The rest of a quoted line lacks what the quoted text lacks.
proof fn lemma_quoted_rest(v: Seq<char>)
    requires
        carriable(v),
    ensures
        lacks(seq![' '] + quote(v), '\n'),
{
    let r = seq![' '] + quote(v);
    assert forall|i: int| 0 <= i < r.len() implies r[i] != '\n' by {
        if 2 <= i < r.len() - 1 {
            assert(r[i] == v[i - 2]);
        }
    }
}

proof fn lemma_key_literals()
    ensures
        "title: \""@ =~= key_names()[0] + seq![':', ' ', '"'],
        "layout: \""@ =~= key_names()[1] + seq![':', ' ', '"'],
        "image: \""@ =~= key_names()[2] + seq![':', ' ', '"'],
        "link: \""@ =~= key_names()[3] + seq![':', ' ', '"'],
        "date: \""@ =~= key_names()[4] + seq![':', ' ', '"'],
        "dateModified: \""@ =~= key_names()[5] + seq![':', ' ', '"'],
        "description: \""@ =~= key_names()[6] + seq![':', ' ', '"'],
        "draft: "@ =~= key_names()[7] + seq![':', ' '],
        "tags: "@ =~= key_names()[8] + seq![':', ' '],
        "\""@ =~= seq!['"'],
        forall|k: int| 0 <= k < 9 ==> lacks(#[trigger] key_names()[k], ':') && lacks(key_names()[k], '\n'),
{
    reveal_strlit("title: \"");
    reveal_strlit("layout: \"");
    reveal_strlit("image: \"");
    reveal_strlit("link: \"");
    reveal_strlit("date: \"");
    reveal_strlit("dateModified: \"");
    reveal_strlit("description: \"");
    reveal_strlit("draft: ");
    reveal_strlit("tags: ");
    reveal_strlit("\"");
    reveal_strlit("title");
    reveal_strlit("layout");
    reveal_strlit("image");
    reveal_strlit("link");
    reveal_strlit("date");
    reveal_strlit("dateModified");
    reveal_strlit("description");
    reveal_strlit("draft");
    reveal_strlit("tags");
}

/// The line of a quoted value.
proof fn lemma_quoted_line(k: int, v: Seq<char>, line: Seq<char>, prefix: Seq<char>)
    requires
        0 <= k < 9,
        carriable(v),
        prefix == key_names()[k] + seq![':', ' ', '"'],
        line == prefix + v + seq!['"'],
        lacks(key_names()[k], ':'),
        lacks(key_names()[k], '\n'),
    ensures
        keyed(line, key_names()[k], seq![' '] + quote(v)),
        lacks(line, '\n'),
        line.len() > 0,
        trim(seq![' '] + quote(v)) == quote(v),
        is_quoted(quote(v)),
        unquote(quote(v)) == v,
{
    assert(line =~= key_names()[k] + seq![':'] + (seq![' '] + quote(v)));
    lemma_quoted_rest(v);
    lemma_line(key_names()[k], seq![' '] + quote(v));
    lemma_unquote(v);
}

/// What follows the colon on each encoded line.
pub open spec fn encoded_rests(p: PostView, c: Config, ds: Seq<char>, ms: Seq<char>) -> Seq<Seq<char>> {
    seq![
        seq![' '] + quote(p.title),
        seq![' '] + quote(p.layout),
        seq![' '] + quote(site_image(p.image_path, c)),
        seq![' '] + quote(p.link),
        seq![' '] + quote(ds),
        seq![' '] + quote(ms),
        seq![' '] + quote(p.description),
        seq![' '] + bool_text(p.is_draft),
        seq![' '] + tags_text(p.tags),
    ]
}

/// The conditions under which a post's header reads back.
pub open spec fn round_trips(p: PostView, c: Config, ds: Seq<char>, ms: Seq<char>) -> bool {
    &&& p.link == c.blog_site_path@ + p.slug
    &&& c.blog_site_path@.len() > 0 && c.blog_site_path@.last() == '/'
    &&& lacks(p.slug, '/')
    &&& starts_with(p.image_path, c.images_path@)
    &&& carriable(p.title)
    &&& carriable(p.layout)
    &&& carriable(p.link)
    &&& carriable(p.description)
    &&& carriable(site_image(p.image_path, c))
    &&& carriable(ds)
    &&& carriable(ms)
    &&& p.tags.len() > 0
    &&& forall|i: int| 0 <= i < p.tags.len() ==> carriable_tag(#[trigger] p.tags[i])
    &&& date_of(ds, c.date_format@) == Some(p.date)
    &&& date_of(ms, c.date_format@) == Some(p.date_modified)
}

proof fn lemma_encoded_lines(p: PostView, c: Config, ds: Seq<char>, ms: Seq<char>)
    requires
        round_trips(p, c, ds, ms),
    ensures
        ({
            let ls = encoded_lines(p, c, ds, ms);
            let rests = encoded_rests(p, c, ds, ms);
            &&& ls.len() == 9
            &&& scan_lines(ls) == Ok::<Seq<Option<Seq<char>>>, HeaderFault>(slots_upto(rests, 9))
            &&& forall|i: int| 0 <= i < 9 ==> lacks(#[trigger] ls[i], '\n') && ls[i].len() > 0 && keyed(
                ls[i],
                key_names()[i],
                rests[i],
            )
            &&& trim(rests[0]) == quote(p.title) && trim(rests[3]) == quote(p.link)
            &&& trim(rests[2]) == quote(site_image(p.image_path, c))
            &&& trim(rests[4]) == quote(ds) && trim(rests[5]) == quote(ms)
            &&& trim(rests[6]) == quote(p.description)
            &&& trim(rests[7]) == bool_text(p.is_draft)
            &&& trim(rests[8]) == tags_text(p.tags)
        }),
{
    let ls = encoded_lines(p, c, ds, ms);
    let rests = encoded_rests(p, c, ds, ms);
    let image = site_image(p.image_path, c);
    lemma_key_literals();
    lemma_quoted_line(0, p.title, ls[0], "title: \""@);
    lemma_quoted_line(1, p.layout, ls[1], "layout: \""@);
    lemma_quoted_line(2, image, ls[2], "image: \""@);
    lemma_quoted_line(3, p.link, ls[3], "link: \""@);
    lemma_quoted_line(4, ds, ls[4], "date: \""@);
    lemma_quoted_line(5, ms, ls[5], "dateModified: \""@);
    lemma_quoted_line(6, p.description, ls[6], "description: \""@);
    reveal_strlit("true");
    reveal_strlit("false");
    let b = bool_text(p.is_draft);
    assert(b.len() > 0 && !is_ws(b[0]) && !is_ws(b.last()) && lacks(b, '\n'));
    let draft_rest = rests[7];
    assert(ls[7] =~= key_names()[7] + seq![':'] + draft_rest);
    assert(lacks(draft_rest, '\n')) by {
        assert forall|i: int| 0 <= i < draft_rest.len() implies draft_rest[i] != '\n' by {
            if i > 0 {
                assert(draft_rest[i] == b[i - 1]);
            }
        }
    }
    lemma_line(key_names()[7], draft_rest);
    lemma_trim_space_then(b);
    let t = tags_text(p.tags);
    lemma_tags_round(p.tags);
    let tags_rest = rests[8];
    assert(ls[8] =~= key_names()[8] + seq![':'] + tags_rest);
    assert(lacks(tags_rest, '\n')) by {
        assert forall|i: int| 0 <= i < tags_rest.len() implies tags_rest[i] != '\n' by {
            if i > 0 {
                assert(tags_rest[i] == t[i - 1]);
            }
        }
    }
    lemma_line(key_names()[8], tags_rest);
    assert forall|i: int| 0 <= i < 9 implies keyed(#[trigger] ls[i], key_names()[i], rests[i]) by {}
    lemma_scan_keyed(ls, rests, 9);
    assert(ls.subrange(0, 9) =~= ls);
}

proof fn lemma_encoded_file(p: PostView, c: Config, ds: Seq<char>, ms: Seq<char>)
    requires
        round_trips(p, c, ds, ms),
    ensures
        has_header(encoded(p, c, ds, ms)),
        text_lines(header_of(encoded(p, c, ds, ms))) == encoded_lines(p, c, ds, ms),
{
    let ls = encoded_lines(p, c, ds, ms);
    lemma_encoded_lines(p, c, ds, ms);
    lemma_split_join_lines(ls);
    reveal_strlit("---");
    reveal_strlit("---\n");
    reveal_strlit("\n---\n\n# ");
    reveal_strlit("# ");
    reveal_strlit("\n");
    let dash = "---"@;
    let body = seq!['\n'] + "# "@ + p.title + "\n"@;
    let tail = dash + seq!['\n'] + body;
    let text = encoded(p, c, ds, ms);
    assert(text =~= dash + seq!['\n'] + (join_lines(ls) + seq!['\n'] + tail));
    assert(lacks(dash, '\n'));
    lemma_split_none(dash, '\n');
    lemma_split_concat(dash, body, '\n');
    lemma_split_concat(join_lines(ls), tail, '\n');
    lemma_split_concat(dash, join_lines(ls) + seq!['\n'] + tail, '\n');
    lemma_split_nonempty(body, '\n');
    let sl = split_on(text, '\n');
    assert(sl =~= seq![dash] + ls + (seq![dash] + split_on(body, '\n')));
    assert(sl[0] == dash);
    assert(sl[10] == dash);
    assert(dash.subrange(0, 3) =~= dash);
    lemma_key_words();
    assert forall|i: int| 1 <= i <= 9 implies #[trigger] is_key_line(sl[i]) by {
        assert(sl[i] == ls[i - 1]);
        assert(split_on(sl[i], ':')[0] == key_names()[i - 1]);
    }
    assert(sl.subrange(1, 10) =~= ls);
    assert(header_of(text) == join_lines(ls));
}

/// Decoding the header of an encoded post gives back its slug, title,
/// description, image path, tags, draft status and both dates. This holds
/// for a post whose link is the blog path (ending in a slash) followed by a
/// slug without slashes, whose image lies under the images directory, whose
/// texts hold no newline, whose tags are at least one, free of commas and
/// written as they are in the list form, and whose dates are written as
/// texts that parse back to them under the configured format
/// (`round_trips`).
pub proof fn lemma_round_trip(p: PostView, c: Config, ds: Seq<char>, ms: Seq<char>)
    requires
        round_trips(p, c, ds, ms),
    ensures
        has_header(encoded(p, c, ds, ms)),
        decode_props(header_of(encoded(p, c, ds, ms)), c) == Ok::<PropsView, HeaderFault>(
            PropsView {
                slug: p.slug,
                title: p.title,
                description: p.description,
                image_path: p.image_path,
                tags: p.tags,
                draft: p.is_draft,
                date: p.date,
                modified_date: p.date_modified,
            },
        ),
{
    let rests = encoded_rests(p, c, ds, ms);
    let image = site_image(p.image_path, c);
    lemma_encoded_file(p, c, ds, ms);
    lemma_encoded_lines(p, c, ds, ms);
    let slots = slots_upto(rests, 9);
    lemma_unquote(p.title);
    lemma_unquote(p.link);
    lemma_unquote(p.description);
    lemma_unquote(image);
    lemma_unquote(ds);
    lemma_unquote(ms);
    lemma_tags_round(p.tags);
    lemma_split_concat(c.blog_site_path@.drop_last(), p.slug, '/');
    lemma_split_none(p.slug, '/');
    assert(c.blog_site_path@ + p.slug =~= c.blog_site_path@.drop_last() + seq!['/'] + p.slug);
    assert(last_segment(p.link) == p.slug);
    assert(p.link.subrange(0, c.blog_site_path@.len() as int) =~= c.blog_site_path@);
    reveal_strlit("true");
    reveal_strlit("false");
    assert(bool_of(bool_text(p.is_draft)) == Some(p.is_draft));
    let isp = c.images_site_path@;
    let ip = c.images_path@;
    assert(image == isp + p.image_path.subrange(ip.len() as int, p.image_path.len() as int));
    assert(image.subrange(0, isp.len() as int) =~= isp);
    assert(p.image_path =~= ip + p.image_path.subrange(ip.len() as int, p.image_path.len() as int));
    assert(swap_prefix(image, isp, ip) =~= p.image_path);
    assert(slots[1] is Some);
    assert(quoted_slot(slots, 3) == Ok::<Seq<char>, HeaderFault>(p.link));
    assert(quoted_slot(slots, 0) == Ok::<Seq<char>, HeaderFault>(p.title));
    assert(quoted_slot(slots, 6) == Ok::<Seq<char>, HeaderFault>(p.description));
    assert(quoted_slot(slots, 2) == Ok::<Seq<char>, HeaderFault>(image));
    assert(quoted_slot(slots, 4) == Ok::<Seq<char>, HeaderFault>(ds));
    assert(quoted_slot(slots, 5) == Ok::<Seq<char>, HeaderFault>(ms));
    assert(slots[8] == Some(tags_text(p.tags)));
    assert(slots[7] == Some(bool_text(p.is_draft)));
}

} // verus!
