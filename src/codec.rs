//! The post header: the nine `key: value` lines between two `---` markers at
//! the top of a post file, and their decoding into typed properties.

use crate::config::Config;
use crate::date::{date_of, parse_naive_date, parse_str_date, Date};
use crate::errors::{ApcError, ApcResult};
use crate::text::{
    chars_of, concat3, lemma_split_first, slice_vec, string_of_range, is_quoted, lemma_split_nonempty, list_parses, list_pieces, parse_bool,
    parse_str_vec, parse_string_chars, split_chars, split_on, string_of, string_views, trim, trim_vec,
    unquote, views,
};
use vstd::prelude::*;

verus! {

/// The recognised keys, in the order in which a header lists them.
pub open spec fn key_names() -> Seq<Seq<char>> {
    seq![
        "title"@,
        "layout"@,
        "image"@,
        "link"@,
        "date"@,
        "dateModified"@,
        "description"@,
        "draft"@,
        "tags"@,
    ]
}

/// Positions of the keys in `key_names`.
pub const TITLE: usize = 0;
pub const LAYOUT: usize = 1;
pub const IMAGE: usize = 2;
pub const LINK: usize = 3;
pub const DATE: usize = 4;
pub const DATE_MODIFIED: usize = 5;
pub const DESCRIPTION: usize = 6;
pub const DRAFT: usize = 7;
pub const TAGS: usize = 8;

/// The position of a key among the recognised ones, or -1.
pub open spec fn key_slot(k: Seq<char>) -> int {
    if k == key_names()[0] {
        0
    } else if k == key_names()[1] {
        1
    } else if k == key_names()[2] {
        2
    } else if k == key_names()[3] {
        3
    } else if k == key_names()[4] {
        4
    } else if k == key_names()[5] {
        5
    } else if k == key_names()[6] {
        6
    } else if k == key_names()[7] {
        7
    } else if k == key_names()[8] {
        8
    } else {
        -1
    }
}

fn same_chars(v: &Vec<char>, s: &str) -> (r: bool)
    ensures
        r == (v@ == s@),
{
    let n = s.unicode_len();
    if v.len() != n {
        return false;
    }
    let mut i: usize = 0;
    while i < n
        invariant
            n == s@.len() == v@.len(),
            i <= n,
            v@.subrange(0, i as int) == s@.subrange(0, i as int),
        decreases n - i,
    {
        if v[i] != s.get_char(i) {
            return false;
        }
        i += 1;
        assert(v@.subrange(0, i as int) =~= v@.subrange(0, i - 1).push(v@[i - 1]));
        assert(s@.subrange(0, i as int) =~= s@.subrange(0, i - 1).push(s@[i - 1]));
    }
    assert(v@ =~= v@.subrange(0, n as int));
    assert(s@ =~= s@.subrange(0, n as int));
    true
}

fn find_key(k: &Vec<char>) -> (r: Option<usize>)
    ensures
        match r {
            Some(i) => i < 9 && key_slot(k@) == i,
            None => key_slot(k@) == -1,
        },
{
    if same_chars(k, "title") {
        Some(TITLE)
    } else if same_chars(k, "layout") {
        Some(LAYOUT)
    } else if same_chars(k, "image") {
        Some(IMAGE)
    } else if same_chars(k, "link") {
        Some(LINK)
    } else if same_chars(k, "date") {
        Some(DATE)
    } else if same_chars(k, "dateModified") {
        Some(DATE_MODIFIED)
    } else if same_chars(k, "description") {
        Some(DESCRIPTION)
    } else if same_chars(k, "draft") {
        Some(DRAFT)
    } else if same_chars(k, "tags") {
        Some(TAGS)
    } else {
        None
    }
}

/// The lines of a text (`str::lines` without the carriage-return rule): the
/// pieces between newlines, without the empty piece after a final newline.
pub open spec fn text_lines(s: Seq<char>) -> Seq<Seq<char>> {
    let ps = split_on(s, '\n');
    if ps.last().len() == 0 {
        ps.drop_last()
    } else {
        ps
    }
}

/// Why a header does not decode.
pub enum HeaderFault {
    /// A line whose key is not one of the nine.
    InvalidKey(Seq<char>),
    /// A line with a recognised key and no colon.
    InvalidLine(Seq<char>),
    /// A key that appears twice.
    Duplicate(Seq<char>),
    /// A key that does not appear.
    Missing(Seq<char>),
    /// A value that its parser refuses.
    BadValue,
    /// An image that does not lie under the site's images path.
    BadImage,
    /// A link that does not lie under the site's blog path.
    BadLink,
}

/// What follows the first colon of a line.
pub open spec fn after_key(l: Seq<char>) -> Seq<char> {
    l.subrange(split_on(l, ':')[0].len() as int + 1, l.len() as int)
}

/// No key read yet.
pub open spec fn no_slots() -> Seq<Option<Seq<char>>> {
    Seq::new(9, |i: int| None)
}

/// The raw values of the keys, read line by line; the first faulty line
/// decides the fault.
pub open spec fn scan_lines(ls: Seq<Seq<char>>) -> Result<Seq<Option<Seq<char>>>, HeaderFault>
    decreases ls.len(),
{
    if ls.len() == 0 {
        Ok(no_slots())
    } else {
        match scan_lines(ls.drop_last()) {
            Err(f) => Err(f),
            Ok(slots) => {
                let l = ls.last();
                let ps = split_on(l, ':');
                let k = ps[0];
                let i = key_slot(k);
                if i < 0 {
                    Err(HeaderFault::InvalidKey(k))
                } else if ps.len() < 2 {
                    Err(HeaderFault::InvalidLine(l))
                } else if slots[i] is Some {
                    Err(HeaderFault::Duplicate(k))
                } else {
                    Ok(slots.update(i, Some(trim(after_key(l)))))
                }
            },
        }
    }
}

/// The properties of a post as a header records them.
pub struct Props {
    pub slug: String,
    pub title: String,
    pub description: String,
    pub image_path: String,
    pub tags: Vec<String>,
    pub draft: bool,
    pub date: Date,
    pub modified_date: Date,
}

/// The decoded properties as plain values.
pub struct PropsView {
    pub slug: Seq<char>,
    pub title: Seq<char>,
    pub description: Seq<char>,
    pub image_path: Seq<char>,
    pub tags: Seq<Seq<char>>,
    pub draft: bool,
    pub date: Date,
    pub modified_date: Date,
}

impl View for Props {
    type V = PropsView;

    open spec fn view(&self) -> PropsView {
        PropsView {
            slug: self.slug@,
            title: self.title@,
            description: self.description@,
            image_path: self.image_path@,
            tags: string_views(self.tags@),
            draft: self.draft,
            date: self.date,
            modified_date: self.modified_date,
        }
    }
}

/// The boolean that a literal denotes, if any.
pub open spec fn bool_of(s: Seq<char>) -> Option<bool> {
    if s == "true"@ {
        Some(true)
    } else if s == "false"@ {
        Some(false)
    } else {
        None
    }
}

/// Whether `p` is a prefix of `s`.
pub open spec fn starts_with(s: Seq<char>, p: Seq<char>) -> bool {
    p.len() <= s.len() && s.subrange(0, p.len() as int) == p
}

/// `s` with its prefix `from` replaced by `to`.
pub open spec fn swap_prefix(s: Seq<char>, from: Seq<char>, to: Seq<char>) -> Seq<char> {
    to + s.subrange(from.len() as int, s.len() as int)
}

/// The last segment of a site path: the post's slug.
pub open spec fn last_segment(link: Seq<char>) -> Seq<char> {
    split_on(link, '/').last()
}

/// A quoted value of a slot.
pub open spec fn quoted_slot(slots: Seq<Option<Seq<char>>>, i: int) -> Result<Seq<char>, HeaderFault> {
    match slots[i] {
        None => Err(HeaderFault::Missing(key_names()[i])),
        Some(v) => if is_quoted(v) {
            Ok(unquote(v))
        } else {
            Err(HeaderFault::BadValue)
        },
    }
}

/// A quoted date of a slot.
pub open spec fn date_slot(slots: Seq<Option<Seq<char>>>, i: int, fmt: Seq<char>) -> Result<Date, HeaderFault> {
    match quoted_slot(slots, i) {
        Err(f) => Err(f),
        Ok(s) => match date_of(s, fmt) {
            Some(d) => Ok(d),
            None => Err(HeaderFault::BadValue),
        },
    }
}

/// The properties that the scanned values give, the first failing key
/// deciding the fault: layout (which must be present, its value coming from
/// the configuration), link, title, description, image, tags, draft, date,
/// modification date, then the image's prefix and the link's prefix.
pub open spec fn props_of(
    slots: Seq<Option<Seq<char>>>,
    blog_site_path: Seq<char>,
    images_site_path: Seq<char>,
    images_path: Seq<char>,
    fmt: Seq<char>,
) -> Result<PropsView, HeaderFault> {
    if slots[LAYOUT as int] is None {
        Err(HeaderFault::Missing(key_names()[LAYOUT as int]))
    } else {
        props_from_link(slots, blog_site_path, images_site_path, images_path, fmt)
    }
}

/// The properties from the link on (see `props_of`).
pub open spec fn props_from_link(
    slots: Seq<Option<Seq<char>>>,
    blog_site_path: Seq<char>,
    images_site_path: Seq<char>,
    images_path: Seq<char>,
    fmt: Seq<char>,
) -> Result<PropsView, HeaderFault> {
    match quoted_slot(slots, LINK as int) {
        Err(f) => Err(f),
        Ok(link) => match quoted_slot(slots, TITLE as int) {
            Err(f) => Err(f),
            Ok(title) => match quoted_slot(slots, DESCRIPTION as int) {
                Err(f) => Err(f),
                Ok(description) => match quoted_slot(slots, IMAGE as int) {
                    Err(f) => Err(f),
                    Ok(image) => match slots[TAGS as int] {
                        None => Err(HeaderFault::Missing(key_names()[TAGS as int])),
                        Some(tags) => if !list_parses(tags) {
                            Err(HeaderFault::BadValue)
                        } else {
                            match slots[DRAFT as int] {
                                None => Err(HeaderFault::Missing(key_names()[DRAFT as int])),
                                Some(draft) => match bool_of(draft) {
                                    None => Err(HeaderFault::BadValue),
                                    Some(draft) => match date_slot(slots, DATE as int, fmt) {
                                        Err(f) => Err(f),
                                        Ok(date) => match date_slot(slots, DATE_MODIFIED as int, fmt) {
                                            Err(f) => Err(f),
                                            Ok(modified_date) => if !starts_with(image, images_site_path) {
                                                Err(HeaderFault::BadImage)
                                            } else if !starts_with(link, blog_site_path) {
                                                Err(HeaderFault::BadLink)
                                            } else {
                                                Ok(
                                                    PropsView {
                                                        slug: last_segment(link),
                                                        title,
                                                        description,
                                                        image_path: swap_prefix(image, images_site_path, images_path),
                                                        tags: list_pieces(tags).map_values(|p: Seq<char>| unquote(p)),
                                                        draft,
                                                        date,
                                                        modified_date,
                                                    },
                                                )
                                            },
                                        },
                                    },
                                },
                            }
                        },
                    },
                },
            },
        },
    }
}

/// What decoding the header lines `s` gives under a configuration.
pub open spec fn decode_props(s: Seq<char>, c: Config) -> Result<PropsView, HeaderFault> {
    match scan_lines(text_lines(s)) {
        Err(f) => Err(f),
        Ok(slots) => props_of(
            slots,
            c.blog_site_path@,
            c.images_site_path@,
            c.images_path@,
            c.date_format@,
        ),
    }
}

/// The message of the error for a key that is not one of the nine.
pub open spec fn invalid_key_message(key: Seq<char>, path: Seq<char>) -> Seq<char> {
    "'"@ + key + "' is not a valid key in "@ + path
}

/// The message of the error for a line without a colon.
pub open spec fn invalid_line_message(line: Seq<char>, path: Seq<char>) -> Seq<char> {
    "'"@ + line + "' is not a `key: value` line in "@ + path
}

/// The error that a fault of the header gives: prefix faults are
/// validation errors, the others errors of the post properties; a bad key,
/// a bad line and a duplicate key are named with the source.
pub open spec fn fault_error(f: HeaderFault, path: Seq<char>, e: ApcError) -> bool {
    match f {
        HeaderFault::InvalidKey(k) => e is PostProperties && e->PostProperties_0@ == invalid_key_message(k, path),
        HeaderFault::InvalidLine(l) => e is PostProperties && e->PostProperties_0@ == invalid_line_message(l, path),
        HeaderFault::Duplicate(k) => e is PostProperties && e->PostProperties_0@ == duplicate_message(k, path),
        HeaderFault::BadImage | HeaderFault::BadLink => e is Validation,
        _ => e is PostProperties,
    }
}

/// The message of the error for a key that appears twice.
pub open spec fn duplicate_message(key: Seq<char>, path: Seq<char>) -> Seq<char> {
    "'"@ + key + "' is a duplicate key in "@ + path
}


/// The raw values of the keys as plain values.
pub open spec fn slot_views(v: Seq<Option<Vec<char>>>) -> Seq<Option<Seq<char>>> {
    v.map_values(
        |o: Option<Vec<char>>|
            match o {
                Some(x) => Some(x@),
                None => None,
            },
    )
}

pub proof fn lemma_scan_prefix_err(ls: Seq<Seq<char>>, i: int)
    requires
        0 <= i <= ls.len(),
        scan_lines(ls.subrange(0, i)) is Err,
    ensures
        scan_lines(ls) == scan_lines(ls.subrange(0, i)),
    decreases ls.len(),
{
    if i < ls.len() {
        assert(ls.drop_last().subrange(0, i) =~= ls.subrange(0, i));
        lemma_scan_prefix_err(ls.drop_last(), i);
    } else {
        assert(ls.subrange(0, i) =~= ls);
    }
}

fn lines_of(v: &Vec<char>) -> (r: Vec<Vec<char>>)
    ensures
        views(r@) == text_lines(v@),
{
    let mut ps = split_chars(v, '\n');
    proof {
        lemma_split_nonempty(v@, '\n');
    }
    let n = ps.len();
    if ps[n - 1].len() == 0 {
        ps.pop();
        assert(views(ps@) =~= split_on(v@, '\n').drop_last());
    }
    ps
}

fn key_name(i: usize) -> (r: &'static str)
    requires
        i < 9,
    ensures
        r@ == key_names()[i as int],
{
    if i == TITLE {
        "title"
    } else if i == LAYOUT {
        "layout"
    } else if i == IMAGE {
        "image"
    } else if i == LINK {
        "link"
    } else if i == DATE {
        "date"
    } else if i == DATE_MODIFIED {
        "dateModified"
    } else if i == DESCRIPTION {
        "description"
    } else if i == DRAFT {
        "draft"
    } else {
        "tags"
    }
}

fn concat4(a: &str, b: &str, c: &str, d: &str) -> (r: String)
    ensures
        r@ == a@ + b@ + c@ + d@,
{
    let mut s = concat3(a, b, c);
    s.append(d);
    s
}

/// Reads the header lines into the raw value of each key.
fn scan(lines: &Vec<Vec<char>>, post_path: &str) -> (r: ApcResult<Vec<Option<Vec<char>>>>)
    ensures
        match scan_lines(views(lines@)) {
            Ok(slots) => r is Ok && slot_views(r->Ok_0@) == slots && r->Ok_0@.len() == 9,
            Err(f) => r is Err && (f is InvalidKey || f is InvalidLine || f is Duplicate) && fault_error(
                f,
                post_path@,
                r->Err_0,
            ),
        },
{
    let ghost ls = views(lines@);
    let mut slots: Vec<Option<Vec<char>>> = Vec::new();
    let mut j: usize = 0;
    while j < 9
        invariant
            j <= 9,
            slots@.len() == j,
            forall|k: int| 0 <= k < j ==> slots@[k] is None,
        decreases 9 - j,
    {
        slots.push(None);
        j += 1;
    }
    assert(slot_views(slots@) =~= no_slots());
    assert(ls.subrange(0, 0) =~= Seq::<Seq<char>>::empty());
    let mut i: usize = 0;
    while i < lines.len()
        invariant
            ls == views(lines@),
            i <= lines@.len(),
            slots@.len() == 9,
            scan_lines(ls.subrange(0, i as int)) == Ok::<Seq<Option<Seq<char>>>, HeaderFault>(
                slot_views(slots@),
            ),
        decreases lines@.len() - i,
    {
        let ghost sub = ls.subrange(0, i + 1);
        assert(sub.drop_last() =~= ls.subrange(0, i as int));
        assert(sub.last() == lines@[i as int]@);
        let line = &lines[i];
        let pieces = split_chars(line, ':');
        proof {
            lemma_split_nonempty(line@, ':');
        }
        assert(pieces@[0]@ == split_on(line@, ':')[0]);
        let key = string_of(&pieces[0]);
        match find_key(&pieces[0]) {
            None => {
                proof {
                    lemma_scan_prefix_err(ls, i + 1);
                }
                return Err(
                    ApcError::PostProperties(
                        concat4("'", key.as_str(), "' is not a valid key in ", post_path),
                    ),
                );
            },
            Some(k) => {
                if pieces.len() < 2 {
                    proof {
                        lemma_scan_prefix_err(ls, i + 1);
                    }
                    let shown = string_of(line);
                    return Err(
                        ApcError::PostProperties(
                            concat4("'", shown.as_str(), "' is not a `key: value` line in ", post_path),
                        ),
                    );
                }
                if slots[k].is_some() {
                    proof {
                        lemma_scan_prefix_err(ls, i + 1);
                    }
                    return Err(
                        ApcError::PostProperties(
                            concat4("'", key.as_str(), "' is a duplicate key in ", post_path),
                        ),
                    );
                }
                proof {
                    lemma_split_first(line@, ':');
                }
                assert(pieces@[0]@ == split_on(line@, ':')[0]);
                assert(split_on(line@, ':').len() >= 2);
                assert(pieces@[0]@.len() < line@.len());
                let klen = pieces[0].len();
                assert(klen == pieces@[0]@.len());
                assert(klen < line.len());
                let rest = slice_vec(line, klen + 1, line.len());
                let value = trim_vec(&rest);
                let ghost before = slots@;
                slots.set(k, Some(value));
                assert(slot_views(slots@) =~= slot_views(before).update(k as int, Some(value@)));
            },
        }
        i += 1;
    }
    assert(ls.subrange(0, ls.len() as int) =~= ls);
    Ok(slots)
}


fn quoted_value(slots: &Vec<Option<Vec<char>>>, i: usize) -> (r: ApcResult<String>)
    requires
        slots@.len() == 9,
        i < 9,
    ensures
        match quoted_slot(slot_views(slots@), i as int) {
            Ok(v) => r is Ok && r->Ok_0@ == v,
            Err(f) => r is Err && r->Err_0 is PostProperties && (f is Missing || f is BadValue),
        },
{
    match &slots[i] {
        None => Err(
            ApcError::PostProperties(
                concat3("The post has no `", key_name(i), "` property, and it should"),
            ),
        ),
        Some(v) => {
            parse_string_chars(v)
        },
    }
}

pub(crate) fn starts_with_text(v: &Vec<char>, p: &str) -> (r: bool)
    ensures
        r == starts_with(v@, p@),
{
    let n = p.unicode_len();
    if n > v.len() {
        return false;
    }
    let mut i: usize = 0;
    while i < n
        invariant
            n == p@.len() <= v@.len(),
            i <= n,
            v@.subrange(0, i as int) == p@.subrange(0, i as int),
        decreases n - i,
    {
        if v[i] != p.get_char(i) {
            assert(v@.subrange(0, n as int)[i as int] != p@[i as int]);
            return false;
        }
        i += 1;
        assert(v@.subrange(0, i as int) =~= v@.subrange(0, i - 1).push(v@[i - 1]));
        assert(p@.subrange(0, i as int) =~= p@.subrange(0, i - 1).push(p@[i - 1]));
    }
    assert(p@ =~= p@.subrange(0, n as int));
    true
}

impl Props {
    /// Decodes the header lines of a post (without the `---` markers).
    /// `post_path` names the post in error messages. The image path is turned
    /// from its site form into its on-disk form. Both dates must also name a
    /// single local midnight (see `parse_str_date`); whether they do depends
    /// on the machine's time zone, so a header that decodes may still be
    /// refused, with an error of the post properties.
    pub fn from_str(str_props: &str, post_path: &str, config: &Config) -> (r: ApcResult<Props>)
        ensures
            match decode_props(str_props@, *config) {
                Ok(p) => match r {
                    Ok(q) => q@ == p,
                    Err(e) => e is PostProperties,
                },
                Err(f) => r is Err && fault_error(f, post_path@, r->Err_0),
            },
    {
        let v = chars_of(str_props);
        let lines = lines_of(&v);
        let slots = scan(&lines, post_path)?;
        if slots[LAYOUT].is_none() {
            return Err(
                ApcError::PostProperties(String::from_str("The post has no `layout` property, and it should")),
            );
        }
        let link = chars_of(quoted_value(&slots, LINK)?.as_str());
        let segments = split_chars(&link, '/');
        proof {
            lemma_split_nonempty(link@, '/');
        }
        let slug = string_of(&segments[segments.len() - 1]);
        let title = quoted_value(&slots, TITLE)?;
        let description = quoted_value(&slots, DESCRIPTION)?;
        let image = chars_of(quoted_value(&slots, IMAGE)?.as_str());
        let tags = match &slots[TAGS] {
            None => {
                return Err(ApcError::PostProperties(String::from_str("The post has no `tags` property, and it should")));
            },
            Some(t) => {
                let t = string_of(t);
                parse_str_vec(t.as_str())?
            },
        };
        let draft = match &slots[DRAFT] {
            None => {
                return Err(ApcError::PostProperties(String::from_str("The post has no `draft` property, and it should")));
            },
            Some(d) => {
                let d = string_of(d);
                proof {
                    reveal_strlit("true");
                    reveal_strlit("false");
                }
                parse_bool(d.as_str())?
            },
        };
        let date_text = quoted_value(&slots, DATE)?;
        let date = parse_naive_date(date_text.as_str(), config.date_format.as_str())?;
        let modified_text = quoted_value(&slots, DATE_MODIFIED)?;
        let modified_date = parse_naive_date(modified_text.as_str(), config.date_format.as_str())?;
        if !starts_with_text(&image, config.images_site_path.as_str()) {
            return Err(
                ApcError::Validation(
                    concat3(
                        "The post image does not start with `",
                        config.images_site_path.as_str(),
                        "`, the images path of the site",
                    ),
                ),
            );
        }
        if !starts_with_text(&link, config.blog_site_path.as_str()) {
            return Err(
                ApcError::Validation(
                    concat3(
                        "The post link does not start with `",
                        config.blog_site_path.as_str(),
                        "`, the blog path of the site",
                    ),
                ),
            );
        }
        parse_str_date(date_text.as_str(), config.date_format.as_str())?;
        parse_str_date(modified_text.as_str(), config.date_format.as_str())?;
        let rest = string_of_range(&image, config.images_site_path.as_str().unicode_len(), image.len());
        let mut image_path = String::from_str(config.images_path.as_str());
        image_path.append(rest.as_str());
        Ok(Props { slug, title, description, image_path, tags, draft, date, modified_date })
    }
}


/// The lines `ls` joined with newlines.
pub open spec fn join_lines(ls: Seq<Seq<char>>) -> Seq<char>
    decreases ls.len(),
{
    if ls.len() == 0 {
        Seq::empty()
    } else if ls.len() == 1 {
        ls[0]
    } else {
        join_lines(ls.drop_last()) + seq!['\n'] + ls.last()
    }
}

/// Whether a character is alphabetic or numeric (`char::is_alphanumeric`).
pub uninterp spec fn alphanumeric(c: char) -> bool;

/// Relies on char::is_alphanumeric: whether the character has Unicode's
/// Alphabetic or Numeric property.
#[verifier::external_body]
fn is_alphanumeric(c: char) -> (r: bool)
    ensures
        r == alphanumeric(c),
{
    c.is_alphanumeric()
}

/// A character of a key: an ASCII letter, digit or underscore, or a
/// non-ASCII alphanumeric character.
pub open spec fn is_word_char(c: char) -> bool {
    if (c as u32) < 128 {
        ('a' <= c && c <= 'z') || ('A' <= c && c <= 'Z') || ('0' <= c && c <= '9') || c == '_'
    } else {
        alphanumeric(c)
    }
}

fn word_char(c: char) -> (r: bool)
    ensures
        r == is_word_char(c),
{
    if (c as u32) < 128 {
        ('a' <= c && c <= 'z') || ('A' <= c && c <= 'Z') || ('0' <= c && c <= '9') || c == '_'
    } else {
        is_alphanumeric(c)
    }
}

/// A line of a header block: word characters, then a colon, then anything.
pub open spec fn is_key_line(l: Seq<char>) -> bool {
    let ps = split_on(l, ':');
    ps.len() >= 2 && forall|j: int| 0 <= j < ps[0].len() ==> is_word_char(#[trigger] ps[0][j])
}

/// Whether a post file starts with a header block: a `---` line, nine key
/// lines, and a line that starts with `---`.
pub open spec fn has_header(s: Seq<char>) -> bool {
    let ls = split_on(s, '\n');
    ls.len() >= 11 && ls[0] == "---"@ && starts_with(ls[10], "---"@) && forall|i: int|
        1 <= i <= 9 ==> #[trigger] is_key_line(ls[i])
}

/// The nine header lines of a post file, joined with newlines.
pub open spec fn header_of(s: Seq<char>) -> Seq<char> {
    join_lines(split_on(s, '\n').subrange(1, 10))
}

fn key_line(v: &Vec<char>) -> (r: bool)
    ensures
        r == is_key_line(v@),
{
    let ps = split_chars(v, ':');
    if ps.len() < 2 {
        return false;
    }
    let key = &ps[0];
    assert(key@ == split_on(v@, ':')[0]);
    let mut i: usize = 0;
    while i < key.len()
        invariant
            i <= key@.len(),
            key@ == split_on(v@, ':')[0],
            forall|j: int| 0 <= j < i ==> is_word_char(#[trigger] key@[j]),
        decreases key@.len() - i,
    {
        if !word_char(key[i]) {
            return false;
        }
        i += 1;
    }
    true
}

/// Extracts the nine header lines of a post file.
pub fn parse_props(full_props: &str) -> (r: ApcResult<String>)
    ensures
        match r {
            Ok(h) => has_header(full_props@) && h@ == header_of(full_props@),
            Err(e) => !has_header(full_props@) && e is PostProperties,
        },
{
    let v = chars_of(full_props);
    let ls = split_chars(&v, '\n');
    let ghost sl = split_on(full_props@, '\n');
    if ls.len() < 11 {
        return Err(malformed_header());
    }
    assert(ls@[0]@ == sl[0]);
    assert(ls@[10]@ == sl[10]);
    if !same_chars(&ls[0], "---") || !starts_with_text(&ls[10], "---") {
        return Err(malformed_header());
    }
    let mut i: usize = 1;
    while i <= 9
        invariant
            views(ls@) == sl,
            sl == split_on(full_props@, '\n'),
            sl.len() >= 11,
            1 <= i <= 10,
            forall|j: int| 1 <= j < i ==> #[trigger] is_key_line(sl[j]),
        decreases 10 - i,
    {
        assert(ls@[i as int]@ == sl[i as int]);
        if !key_line(&ls[i]) {
            return Err(malformed_header());
        }
        i += 1;
    }
    let mut out = String::new();
    out.append(string_of(&ls[1]).as_str());
    let mut k: usize = 2;
    assert(sl.subrange(1, 2).drop_last() =~= Seq::<Seq<char>>::empty());
    assert(out@ == join_lines(sl.subrange(1, 2)));
    while k <= 9
        invariant
            views(ls@) == sl,
            sl == split_on(full_props@, '\n'),
            has_header(full_props@),
            sl.len() >= 11,
            2 <= k <= 10,
            out@ == join_lines(sl.subrange(1, k as int)),
        decreases 10 - k,
    {
        assert(sl.subrange(1, k + 1).drop_last() =~= sl.subrange(1, k as int));
        assert(ls@[k as int]@ == sl[k as int]);
        push_newline(&mut out);
        out.append(string_of(&ls[k]).as_str());
        k += 1;
    }
    Ok(out)
}

fn malformed_header() -> (r: ApcError)
    ensures
        r is PostProperties,
{
    ApcError::PostProperties(String::from_str("Invalid post properties: the header block is malformed"))
}

fn push_newline(s: &mut String)
    ensures
        final(s)@ == old(s)@ + seq!['\n'],
{
    proof {
        reveal_strlit("\n");
    }
    s.append("\n");
}


/// A second `title` line fails the decoding, naming the key, whatever lines
/// follow it: `ls` are lines that read well and give a title, `l` a line
/// whose key is `title`.
pub proof fn lemma_second_title_refused(ls: Seq<Seq<char>>, l: Seq<char>, more: Seq<Seq<char>>)
    requires
        scan_lines(ls) is Ok,
        scan_lines(ls)->Ok_0[TITLE as int] is Some,
        split_on(l, ':').len() >= 2,
        split_on(l, ':')[0] == key_names()[TITLE as int],
    ensures
        scan_lines(ls.push(l) + more) == Err::<Seq<Option<Seq<char>>>, HeaderFault>(
            HeaderFault::Duplicate(key_names()[TITLE as int]),
        ),
{
    let all = ls.push(l) + more;
    let first = all.subrange(0, ls.len() as int + 1);
    assert(first =~= ls.push(l));
    assert(first.drop_last() =~= ls);
    assert(key_slot(key_names()[0]) == 0);
    lemma_scan_prefix_err(all, ls.len() as int + 1);
}

} // verus!
