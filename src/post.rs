//! The post entity: its construction, its header text, its file path and the
//! change of its slug.

use crate::codec::{Props, join_lines, starts_with, starts_with_text, swap_prefix};
use crate::config::Config;
use crate::date::{formatted_date, ymd, Date};
use crate::errors::{ApcError, ApcResult};
use crate::text::{chars_of, concat3, push_char, slug_of, slug_updater, string_of_range, string_views};
use vstd::prelude::*;

verus! {

/// A blog post.
pub struct Post {
    pub title: String,
    pub layout: String,
    pub slug: String,
    pub is_draft: bool,
    pub description: String,
    pub tags: Vec<String>,
    /// Where the header image lies on disk.
    pub image_path: String,
    pub date: Date,
    pub date_modified: Date,
    /// The site path of the post: the blog path followed by the slug.
    pub link: String,
}

/// A post as plain values.
pub struct PostView {
    pub title: Seq<char>,
    pub layout: Seq<char>,
    pub slug: Seq<char>,
    pub is_draft: bool,
    pub description: Seq<char>,
    pub tags: Seq<Seq<char>>,
    pub image_path: Seq<char>,
    pub date: Date,
    pub date_modified: Date,
    pub link: Seq<char>,
}

impl View for Post {
    type V = PostView;

    open spec fn view(&self) -> PostView {
        PostView {
            title: self.title@,
            layout: self.layout@,
            slug: self.slug@,
            is_draft: self.is_draft,
            description: self.description@,
            tags: string_views(self.tags@),
            image_path: self.image_path@,
            date: self.date,
            date_modified: self.date_modified,
            link: self.link@,
        }
    }
}

/// A post agrees with the configuration: its slug is in normal form, its link
/// is the blog path followed by the slug, and its layout is the configured one.
pub open spec fn post_consistent(p: PostView, c: Config) -> bool {
    &&& slug_of(p.slug) == p.slug
    &&& p.link == c.blog_site_path@ + p.slug
    &&& p.layout == c.posts_layout@
}

/// The site form of an on-disk image path: its images-directory prefix
/// replaced by the site's images path.
pub open spec fn site_image(path: Seq<char>, c: Config) -> Seq<char> {
    if starts_with(path, c.images_path@) {
        swap_prefix(path, c.images_path@, c.images_site_path@)
    } else {
        path
    }
}

/// The literal of a boolean.
pub open spec fn bool_text(b: bool) -> Seq<char> {
    if b {
        "true"@
    } else {
        "false"@
    }
}

/// The parts `ps` joined with `sep`.
pub open spec fn join_with(ps: Seq<Seq<char>>, sep: Seq<char>) -> Seq<char>
    decreases ps.len(),
{
    if ps.len() == 0 {
        Seq::empty()
    } else if ps.len() == 1 {
        ps[0]
    } else {
        join_with(ps.drop_last(), sep) + sep + ps.last()
    }
}

/// What `char::escape_debug` writes for a character.
pub uninterp spec fn char_debug_of(c: char) -> Seq<char>;

/// Relies on char::escape_debug: the escaped form of a character, which
/// depends on the character alone. For characters outside ASCII it is the
/// form that the `Debug` output of a string gives them.
#[verifier::external_body]
fn char_escape_debug(c: char) -> (r: String)
    ensures
        r@ == char_debug_of(c),
{
    c.escape_debug().to_string()
}

/// A hexadecimal digit in lower case.
pub open spec fn hex_digit(n: u32) -> char {
    if n < 10 {
        ((n + 48) as u8) as char
    } else {
        ((n + 87) as u8) as char
    }
}

/// The hexadecimal digits of a number below 256, without leading zeros.
pub open spec fn hex_of(n: u32) -> Seq<char> {
    if n < 16 {
        seq![hex_digit(n)]
    } else {
        seq![hex_digit(n / 16), hex_digit(n % 16)]
    }
}

/// How the `Debug` output of a string writes an ASCII character: `\0`,
/// `\t`, `\r`, `\n`, `\"` and `\\` for those, `\u{..}` for the other
/// control characters, the character itself otherwise.
pub open spec fn ascii_debug(c: char) -> Seq<char> {
    let u = c as u32;
    if u == 0 {
        seq!['\\', '0']
    } else if c == '\t' {
        seq!['\\', 't']
    } else if c == '\r' {
        seq!['\\', 'r']
    } else if c == '\n' {
        seq!['\\', 'n']
    } else if c == '"' || c == '\\' {
        seq!['\\', c]
    } else if u < 0x20 || u == 0x7f {
        seq!['\\', 'u', '{'] + hex_of(u) + seq!['}']
    } else {
        seq![c]
    }
}

/// A character of a tag as the list form writes it: as the `Debug` output
/// of a string does.
pub open spec fn escape_char(c: char) -> Seq<char> {
    if (c as u32) < 128 {
        ascii_debug(c)
    } else {
        char_debug_of(c)
    }
}

fn hex_char(n: u32) -> (r: char)
    requires
        n < 16,
    ensures
        r == hex_digit(n),
{
    if n < 10 {
        ((n + 48) as u8) as char
    } else {
        ((n + 87) as u8) as char
    }
}

fn push_escaped(s: &mut String, c: char)
    ensures
        final(s)@ == old(s)@ + escape_char(c),
{
    let u = c as u32;
    if u >= 128 {
        let e = char_escape_debug(c);
        s.append(e.as_str());
    } else if u == 0 {
        push_char(s, '\\');
        push_char(s, '0');
    } else if c == '\t' {
        push_char(s, '\\');
        push_char(s, 't');
    } else if c == '\r' {
        push_char(s, '\\');
        push_char(s, 'r');
    } else if c == '\n' {
        push_char(s, '\\');
        push_char(s, 'n');
    } else if c == '"' || c == '\\' {
        push_char(s, '\\');
        push_char(s, c);
    } else if u < 0x20 || u == 0x7f {
        push_char(s, '\\');
        push_char(s, 'u');
        push_char(s, '{');
        if u >= 16 {
            push_char(s, hex_char(u / 16));
            push_char(s, hex_char(u % 16));
        } else {
            push_char(s, hex_char(u));
        }
        push_char(s, '}');
    } else {
        push_char(s, c);
    }
    assert(s@ =~= old(s)@ + escape_char(c));
}

/// A tag as the list form writes it.
pub open spec fn escaped(t: Seq<char>) -> Seq<char>
    decreases t.len(),
{
    if t.len() == 0 {
        Seq::empty()
    } else {
        escaped(t.drop_last()) + escape_char(t.last())
    }
}

/// The list form of the tags, `["a", "b"]`: each tag between double quotes,
/// its characters escaped as the `Debug` output of a string escapes them.
/// This is the `Debug` form of the list.
pub open spec fn tags_text(tags: Seq<Seq<char>>) -> Seq<char> {
    "["@ + join_with(tags.map_values(|t: Seq<char>| "\""@ + escaped(t) + "\""@), ", "@) + "]"@
}

fn escape(t: &str) -> (r: String)
    ensures
        r@ == escaped(t@),
{
    let v = chars_of(t);
    let mut s = String::new();
    let mut i: usize = 0;
    while i < v.len()
        invariant
            i <= v@.len(),
            s@ == escaped(v@.subrange(0, i as int)),
        decreases v@.len() - i,
    {
        assert(v@.subrange(0, i + 1).drop_last() =~= v@.subrange(0, i as int));
        push_escaped(&mut s, v[i]);
        i += 1;
        assert(s@ =~= escaped(v@.subrange(0, i as int)));
    }
    assert(v@.subrange(0, v@.len() as int) =~= v@);
    s
}

/// The nine header lines of a post, with its dates written as `ds` and `ms`.
pub open spec fn encoded_lines(p: PostView, c: Config, ds: Seq<char>, ms: Seq<char>) -> Seq<Seq<char>> {
    seq![
        "title: \""@ + p.title + "\""@,
        "layout: \""@ + p.layout + "\""@,
        "image: \""@ + site_image(p.image_path, c) + "\""@,
        "link: \""@ + p.link + "\""@,
        "date: \""@ + ds + "\""@,
        "dateModified: \""@ + ms + "\""@,
        "description: \""@ + p.description + "\""@,
        "draft: "@ + bool_text(p.is_draft),
        "tags: "@ + tags_text(p.tags),
    ]
}

/// The whole text of a post file.
pub open spec fn encoded(p: PostView, c: Config, ds: Seq<char>, ms: Seq<char>) -> Seq<char> {
    "---\n"@ + join_lines(encoded_lines(p, c, ds, ms)) + "\n---\n\n# "@ + p.title + "\n"@
}

/// The path of the file of the post with slug `slug`.
pub open spec fn post_path_of(c: Config, slug: Seq<char>) -> Seq<char> {
    in_dir(c.posts_path@, slug_of(slug) + ".md"@)
}

/// The path of `name` in the directory `dir` (`Path::join`): a slash
/// between them unless `dir` is empty or already ends with one.
pub open spec fn in_dir(dir: Seq<char>, name: Seq<char>) -> Seq<char> {
    if dir.len() == 0 || dir.last() == '/' {
        dir + name
    } else {
        dir + seq!['/'] + name
    }
}

/// The path of the file `<name>.md` in the directory `dir`.
pub fn md_in_dir(dir: &str, name: &str) -> (r: String)
    ensures
        r@ == in_dir(dir@, name@ + ".md"@),
{
    let n = dir.unicode_len();
    let mut r = String::from_str(dir);
    if n > 0 && dir.get_char(n - 1) != '/' {
        push_char(&mut r, '/');
    }
    r.append(name);
    r.append(".md");
    r
}

/// Returns the path of the file of the post with this slug.
pub fn to_post_path(config: &Config, slug: &str) -> (r: String)
    ensures
        r@ == post_path_of(*config, slug@),
{
    let s = slug_updater(slug);
    md_in_dir(config.posts_path.as_str(), s.as_str())
}

fn join_tags(tags: &Vec<String>) -> (r: String)
    ensures
        r@ == join_with(string_views(tags@).map_values(|t: Seq<char>| "\""@ + escaped(t) + "\""@), ", "@),
{
    let ghost q = string_views(tags@).map_values(|t: Seq<char>| "\""@ + escaped(t) + "\""@);
    let mut s = String::new();
    let mut i: usize = 0;
    assert(q.subrange(0, 0) =~= Seq::<Seq<char>>::empty());
    while i < tags.len()
        invariant
            q == string_views(tags@).map_values(|t: Seq<char>| "\""@ + escaped(t) + "\""@),
            i <= tags@.len(),
            s@ == join_with(q.subrange(0, i as int), ", "@),
        decreases tags@.len() - i,
    {
        assert(q.subrange(0, i + 1).drop_last() =~= q.subrange(0, i as int));
        if i > 0 {
            s.append(", ");
        }
        let e = escape(tags[i].as_str());
        let t = concat3("\"", e.as_str(), "\"");
        s.append(t.as_str());
        i += 1;
    }
    assert(q.subrange(0, tags@.len() as int) =~= q);
    s
}

fn join_line_vec(ls: &Vec<String>) -> (r: String)
    ensures
        r@ == join_lines(string_views(ls@)),
{
    let ghost q = string_views(ls@);
    let mut s = String::new();
    let mut i: usize = 0;
    assert(q.subrange(0, 0) =~= Seq::<Seq<char>>::empty());
    while i < ls.len()
        invariant
            q == string_views(ls@),
            i <= ls@.len(),
            s@ == join_lines(q.subrange(0, i as int)),
        decreases ls@.len() - i,
    {
        assert(q.subrange(0, i + 1).drop_last() =~= q.subrange(0, i as int));
        if i > 0 {
            proof {
                reveal_strlit("\n");
            }
            s.append("\n");
        }
        s.append(ls[i].as_str());
        i += 1;
    }
    assert(q.subrange(0, ls@.len() as int) =~= q);
    s
}

fn site_image_path(path: &String, config: &Config) -> (r: String)
    ensures
        r@ == site_image(path@, *config),
{
    let v = chars_of(path.as_str());
    let n = config.images_path.as_str().unicode_len();
    if n <= v.len() && starts_with_text(&v, config.images_path.as_str()) {
        let rest = string_of_range(&v, n, v.len());
        let mut r = String::from_str(config.images_site_path.as_str());
        r.append(rest.as_str());
        r
    } else {
        path.clone()
    }
}

impl Post {
    /// Builds a post. The slug is put in normal form, the link derived from
    /// it and the layout taken from the configuration. `image_exists` says
    /// whether `image_path` names an existing file; where it does not, the
    /// post is refused.
    pub fn try_new(
        config: &Config,
        title: String,
        slug: String,
        is_draft: bool,
        description: String,
        tags: Vec<String>,
        image_path: String,
        date: Date,
        date_modified: Date,
        image_exists: bool,
    ) -> (r: ApcResult<Post>)
        ensures
            !image_exists ==> r is Err && r->Err_0 is Validation,
            image_exists ==> r is Ok && r->Ok_0@ == (PostView {
                title: title@,
                layout: config.posts_layout@,
                slug: slug_of(slug@),
                is_draft,
                description: description@,
                tags: string_views(tags@),
                image_path: image_path@,
                date,
                date_modified,
                link: config.blog_site_path@ + slug_of(slug@),
            }),
    {
        if !image_exists {
            return Err(
                ApcError::Validation(concat3("The image `", image_path.as_str(), "` doesn't exist")),
            );
        }
        let slug = slug_updater(slug.as_str());
        let mut link = String::from_str(config.blog_site_path.as_str());
        link.append(slug.as_str());
        Ok(
            Post {
                title,
                layout: config.posts_layout.clone(),
                slug,
                is_draft,
                description,
                tags,
                image_path,
                date,
                date_modified,
                link,
            },
        )
    }

    /// Builds the post that decoded header properties describe.
    /// `image_exists` says whether the decoded image path names an existing
    /// file; where it does not, the post is refused.
    pub fn from_props(config: &Config, props: Props, image_exists: bool) -> (r: ApcResult<Post>)
        ensures
            !image_exists ==> r is Err && r->Err_0 is Validation,
            image_exists ==> r is Ok && r->Ok_0@ == (PostView {
                title: props@.title,
                layout: config.posts_layout@,
                slug: slug_of(props@.slug),
                is_draft: props@.draft,
                description: props@.description,
                tags: props@.tags,
                image_path: props@.image_path,
                date: props@.date,
                date_modified: props@.modified_date,
                link: config.blog_site_path@ + slug_of(props@.slug),
            }),
    {
        Post::try_new(
            config,
            props.title,
            props.slug,
            props.draft,
            props.description,
            props.tags,
            props.image_path,
            props.date,
            props.modified_date,
            image_exists,
        )
    }

    /// The whole text of the post file: the header block, then the title as
    /// a heading. Fails where a date cannot be written with the configured
    /// format.
    pub fn full_properties(&self, config: &Config) -> (r: ApcResult<String>)
        ensures
            match (
                formatted_date(ymd(self.date), config.date_format@),
                formatted_date(ymd(self.date_modified), config.date_format@),
            ) {
                (Some(ds), Some(ms)) => r is Ok && r->Ok_0@ == encoded(self@, *config, ds, ms),
                _ => r is Err && r->Err_0 is Validation,
            },
    {
        let ds = self.date.format(config.date_format.as_str())?;
        let ms = self.date_modified.format(config.date_format.as_str())?;
        let mut lines: Vec<String> = Vec::new();
        lines.push(concat3("title: \"", self.title.as_str(), "\""));
        lines.push(concat3("layout: \"", self.layout.as_str(), "\""));
        let image = site_image_path(&self.image_path, config);
        lines.push(concat3("image: \"", image.as_str(), "\""));
        lines.push(concat3("link: \"", self.link.as_str(), "\""));
        lines.push(concat3("date: \"", ds.as_str(), "\""));
        lines.push(concat3("dateModified: \"", ms.as_str(), "\""));
        lines.push(concat3("description: \"", self.description.as_str(), "\""));
        let draft = if self.is_draft {
            "true"
        } else {
            "false"
        };
        let mut draft_line = String::from_str("draft: ");
        draft_line.append(draft);
        lines.push(draft_line);
        let tags = join_tags(&self.tags);
        let tags = concat3("[", tags.as_str(), "]");
        let mut tags_line = String::from_str("tags: ");
        tags_line.append(tags.as_str());
        lines.push(tags_line);
        let body = join_line_vec(&lines);
        assert(string_views(lines@) =~= encoded_lines(self@, *config, ds@, ms@));
        let mut out = concat3("---\n", body.as_str(), "\n---\n\n# ");
        out.append(self.title.as_str());
        out.append("\n");
        Ok(out)
    }

    /// The path of the post's file.
    pub fn path(&self, config: &Config) -> (r: String)
        ensures
            r@ == post_path_of(*config, self.slug@),
    {
        to_post_path(config, self.slug.as_str())
    }
}

} // verus!
