//! The file operations of a post's life, planned: where a new post's header
//! image goes, how a slug change renames the post file, and how the image
//! directory follows the slug. The caller performs the planned operations.

use crate::config::Config;
use crate::date::Date;
use crate::errors::{ApcError, ApcResult};
use crate::post::{in_dir, md_in_dir, post_path_of, Post, PostView};
use crate::text::{
    chars_of, concat3, same_text, slug_of, slug_updater, string_of,
    string_of_range, tags_of, tags_updater, trim, trim_chars,
};
use vstd::prelude::*;

verus! {

/// The extension of the file that a path names (`Path::extension`).
pub uninterp spec fn extension_of(path: Seq<char>) -> Option<Seq<char>>;

/// The directory of a slug's images.
pub open spec fn image_dir_of(c: Config, slug: Seq<char>) -> Seq<char> {
    c.images_path@ + slug + "/"@
}

/// Where the header image of the post with slug `slug` goes, when copied
/// from `source`: `<images>/<slug>/<slug>-header.<extension or png>`.
pub open spec fn header_path_of(c: Config, slug: Seq<char>, source: Seq<char>) -> Seq<char> {
    let s = slug_of(slug);
    let ext = match extension_of(source) {
        Some(e) => e,
        None => "png"@,
    };
    image_dir_of(c, s) + s + "-header."@ + ext
}

/// A copy of a header image into the images directory of a slug.
pub struct HeaderCopy {
    /// The directory to create if it is missing.
    pub dir: String,
    /// The destination of the copy.
    pub to_path: String,
}

/// Relies on std's Path::extension: the extension of the file that the
/// path names, if it has one; a `&str` path gives a UTF-8 extension.
#[verifier::external_body]
fn extension(path: &str) -> (r: Option<String>)
    ensures
        match r {
            Some(e) => extension_of(path@) == Some(e@),
            None => extension_of(path@) is None,
        },
{
    match std::path::Path::new(path).extension() {
        Some(e) => match e.to_str() {
            Some(x) => Some(x.to_owned()),
            None => None,
        },
        None => None,
    }
}

/// Plans the copy of a new header image from `new_post_header` (an on-disk
/// path) for the post with slug `slug`.
pub fn copy_post_header(config: &Config, slug: &str, new_post_header: &str) -> (r: HeaderCopy)
    ensures
        r.dir@ == image_dir_of(*config, slug_of(slug@)),
        r.to_path@ == header_path_of(*config, slug@, new_post_header@),
{
    let ext = match extension(new_post_header) {
        Some(e) => e,
        None => String::from_str("png"),
    };
    let slug = slug_updater(slug);
    let dir = concat3(config.images_path.as_str(), slug.as_str(), "/");
    let mut to_path = concat3(dir.as_str(), slug.as_str(), "-header.");
    to_path.append(ext.as_str());
    HeaderCopy { dir, to_path }
}

/// `path` with a leading `~` replaced by `home`.
pub open spec fn with_home(path: Seq<char>, home: Seq<char>) -> Seq<char> {
    if path.len() > 0 && path[0] == '~' {
        home + path.subrange(1, path.len() as int)
    } else {
        path
    }
}

/// Replaces a leading `~` of `path` with the home directory `home`.
pub fn replace_tilde_with_home_dir(path: &str, home: &str) -> (r: String)
    ensures
        r@ == with_home(path@, home@),
{
    let v = chars_of(path);
    if v.len() > 0 && v[0] == '~' {
        let rest = string_of_range(&v, 1, v.len());
        let mut r = String::from_str(home);
        r.append(rest.as_str());
        r
    } else {
        String::from_str(path)
    }
}

/// Relies on directories' UserDirs::new and UserDirs::home_dir: the home
/// directory of the user, where the platform has one.
#[verifier::external_body]
fn home_dir() -> (r: Option<String>) {
    let dirs = directories::UserDirs::new()?;
    match dirs.home_dir().to_str() {
        Some(s) => Some(s.to_owned()),
        None => None,
    }
}

/// Expands a leading `~` of `path` to the user's home directory. Which
/// directory that is depends on the machine; a path without `~` is kept.
pub fn expand_home(path: &str) -> (r: ApcResult<String>)
    ensures
        !(path@.len() > 0 && path@[0] == '~') ==> r is Ok && r->Ok_0@ == path@,
        match r {
            Ok(p) => exists|h: Seq<char>| p@ == with_home(path@, h),
            Err(e) => e is FileSystem,
        },
{
    let v = chars_of(path);
    if v.len() > 0 && v[0] == '~' {
        match home_dir() {
            Some(h) => Ok(replace_tilde_with_home_dir(path, h.as_str())),
            None => Err(ApcError::FileSystem(String::from_str("Failed to get the home directory"))),
        }
    } else {
        let r = String::from_str(path);
        assert(r@ == with_home(path@, Seq::empty()));
        Ok(r)
    }
}

/// A file renaming: from, to.
pub struct Rename {
    pub from: String,
    pub to: String,
}

/// One entry of an image directory.
pub struct ImageEntry {
    pub name: String,
    pub is_file: bool,
}

/// The planned moves of a post's images after a slug change.
pub struct ImageMoves {
    /// The copy of the header image into the new slug's directory.
    pub header: HeaderCopy,
    /// The other files of the old directory, moved into the new one.
    pub renames: Vec<Rename>,
    /// The old directory, removed at the end, where the slug changed.
    pub remove_dir: Option<String>,
}

/// The renamings of the entries of the old image directory other than the
/// header image.
pub open spec fn planned_renames(
    entries: Seq<ImageEntry>,
    old_dir: Seq<char>,
    new_dir: Seq<char>,
    header: Seq<char>,
) -> Seq<(Seq<char>, Seq<char>)>
    decreases entries.len(),
{
    if entries.len() == 0 {
        Seq::empty()
    } else {
        let prev = planned_renames(entries.drop_last(), old_dir, new_dir, header);
        let name = entries.last().name@;
        if old_dir + name == header {
            prev
        } else {
            prev.push((old_dir + name, new_dir + name))
        }
    }
}

/// Planned renamings as pairs of plain values.
pub open spec fn rename_views(v: Seq<Rename>) -> Seq<(Seq<char>, Seq<char>)> {
    v.map_values(|r: Rename| (r.from@, r.to@))
}

impl Post {
    /// Builds a new post from the answers of the create questions: title and
    /// description trimmed, tags normalised, a draft, dated `today`, its
    /// image the copy of `source_image` that `copy_post_header` plans.
    /// `source_exists` says whether `source_image` names an existing file;
    /// where it does not, nothing is built.
    pub fn create_action(
        config: &Config,
        title: &str,
        slug: &str,
        description: &str,
        tags: &str,
        source_image: &str,
        source_exists: bool,
        today: Date,
    ) -> (r: ApcResult<Post>)
        ensures
            !source_exists ==> r is Err && r->Err_0 is Validation,
            source_exists ==> r is Ok && r->Ok_0@ == (PostView {
                title: trim(title@),
                layout: config.posts_layout@,
                slug: slug_of(slug@),
                is_draft: true,
                description: trim(description@),
                tags: tags_of(tags@, config.create_post_settings.separated_tags_by),
                image_path: header_path_of(*config, slug@, source_image@),
                date: today,
                date_modified: today,
                link: config.blog_site_path@ + slug_of(slug@),
            }),
    {
        if !source_exists {
            return Err(
                ApcError::Validation(concat3("The image `", source_image, "` doesn't exist")),
            );
        }
        let header = copy_post_header(config, slug, source_image);
        let title = string_of(&trim_chars(title));
        let description = string_of(&trim_chars(description));
        let tags = tags_updater(tags, config.create_post_settings.separated_tags_by);
        Post::try_new(
            config,
            title,
            String::from_str(slug),
            true,
            description,
            tags,
            header.to_path,
            today,
            today,
            true,
        )
    }

    /// Plans the renaming of the post file for a new slug: `None` where the
    /// slug does not change, an error where a post with the new slug exists.
    pub fn slug_rename(&self, config: &Config, new_slug: &str, target_exists: bool) -> (r: ApcResult<
        Option<Rename>,
    >)
        ensures
            self.slug@ == slug_of(new_slug@) ==> r is Ok && r->Ok_0 is None,
            self.slug@ != slug_of(new_slug@) && target_exists ==> r is Err && r->Err_0 is PostProperties,
            self.slug@ != slug_of(new_slug@) && !target_exists ==> r is Ok && r->Ok_0 is Some
                && r->Ok_0->0.from@ == in_dir(config.posts_path@, self.slug@ + ".md"@)
                && r->Ok_0->0.to@ == post_path_of(*config, new_slug@),
    {
        let n = slug_updater(new_slug);
        if same(&self.slug, &n) {
            return Ok(None);
        }
        if target_exists {
            return Err(
                ApcError::PostProperties(concat3("The slug `", n.as_str(), "` already exists")),
            );
        }
        let from = md_in_dir(config.posts_path.as_str(), self.slug.as_str());
        let to = md_in_dir(config.posts_path.as_str(), n.as_str());
        Ok(Some(Rename { from, to }))
    }

    /// Gives the post a new slug, in normal form, and the link that goes
    /// with it. Call it once the file has been renamed.
    pub fn update_slug(&mut self, config: &Config, new_slug: &str)
        ensures
            final(self)@ == (PostView {
                slug: slug_of(new_slug@),
                link: if old(self).slug@ == slug_of(new_slug@) {
                    old(self).link@
                } else {
                    config.blog_site_path@ + slug_of(new_slug@)
                },
                ..old(self)@
            }),
    {
        let n = slug_updater(new_slug);
        if !same(&self.slug, &n) {
            let mut link = String::from_str(config.blog_site_path.as_str());
            link.append(n.as_str());
            self.slug = n;
            self.link = link;
        }
    }

    /// Plans how the images follow a change of slug from `old_slug`, or of
    /// header image to `new_image` (an on-disk path): `None` where neither
    /// changed. The new header image is copied into the slug's directory and
    /// becomes the post's image path. Where the slug changed, `entries` lists
    /// the old slug's image directory, which must hold files only; every
    /// file other than the old header image moves into the new directory,
    /// and the old directory is removed.
    pub fn update_images(
        &mut self,
        config: &Config,
        old_slug: &str,
        new_image: &str,
        entries: &Vec<ImageEntry>,
    ) -> (r: ApcResult<Option<ImageMoves>>)
        ensures
            old(self).slug@ == old_slug@ && new_image@ == old(self).image_path@ ==> r is Ok && r->Ok_0 is None
                && *final(self) == *old(self),
            old(self).slug@ == old_slug@ && new_image@ != old(self).image_path@ ==> r is Ok && r->Ok_0 is Some
                && ({
                let m = r->Ok_0->0;
                &&& m.header.dir@ == image_dir_of(*config, slug_of(old(self).slug@))
                &&& m.header.to_path@ == header_path_of(*config, old(self).slug@, new_image@)
                &&& m.renames@.len() == 0
                &&& m.remove_dir is None
                &&& final(self)@ == (PostView { image_path: m.header.to_path@, ..old(self)@ })
            }),
            old(self).slug@ != old_slug@ && (exists|i: int|
                0 <= i < entries@.len() && !(#[trigger] entries@[i]).is_file) ==> r is Err && r->Err_0 is Other
                && *final(self) == *old(self),
            old(self).slug@ != old_slug@ && (forall|i: int|
                0 <= i < entries@.len() ==> (#[trigger] entries@[i]).is_file) ==> r is Ok && r->Ok_0 is Some
                && ({
                let m = r->Ok_0->0;
                &&& m.header.dir@ == image_dir_of(*config, slug_of(old(self).slug@))
                &&& m.header.to_path@ == header_path_of(*config, old(self).slug@, new_image@)
                &&& rename_views(m.renames@) == planned_renames(
                    entries@,
                    image_dir_of(*config, old_slug@),
                    image_dir_of(*config, slug_of(old(self).slug@)),
                    old(self).image_path@,
                )
                &&& m.remove_dir is Some && m.remove_dir->0@ == image_dir_of(*config, old_slug@)
                &&& final(self)@ == (PostView { image_path: m.header.to_path@, ..old(self)@ })
            }),
    {
        if same(&self.slug, &String::from_str(old_slug)) {
            if same_text(new_image, self.image_path.as_str()) {
                return Ok(None);
            }
            let header = copy_post_header(config, self.slug.as_str(), new_image);
            self.image_path = header.to_path.clone();
            return Ok(Some(ImageMoves { header, renames: Vec::new(), remove_dir: None }));
        }
        let mut k: usize = 0;
        while k < entries.len()
            invariant
                k <= entries@.len(),
                self.slug@ != old_slug@,
                *self == *old(self),
                forall|j: int| 0 <= j < k ==> (#[trigger] entries@[j]).is_file,
            decreases entries@.len() - k,
        {
            if !entries[k].is_file {
                return Err(
                    ApcError::Other(
                        concat3(
                            "Images directory cannot contain directory: `",
                            entries[k].name.as_str(),
                            "`",
                        ),
                    ),
                );
            }
            k += 1;
        }
        let header = copy_post_header(config, self.slug.as_str(), new_image);
        let old_dir = concat3(config.images_path.as_str(), old_slug, "/");
        let new_dir = header.dir.clone();
        let ghost od = old_dir@;
        let ghost nd = new_dir@;
        let mut renames: Vec<Rename> = Vec::new();
        let mut i: usize = 0;
        assert(entries@.subrange(0, 0) =~= Seq::<ImageEntry>::empty());
        assert(rename_views(renames@) =~= Seq::empty());
        while i < entries.len()
            invariant
                i <= entries@.len(),
                *self == *old(self),
                od == old_dir@,
                nd == new_dir@,
                rename_views(renames@) == planned_renames(
                    entries@.subrange(0, i as int),
                    od,
                    nd,
                    self.image_path@,
                ),
            decreases entries@.len() - i,
        {
            assert(entries@.subrange(0, i + 1).drop_last() =~= entries@.subrange(0, i as int));
            let from = concat3(old_dir.as_str(), entries[i].name.as_str(), "");
            let to = concat3(new_dir.as_str(), entries[i].name.as_str(), "");
            proof {
                reveal_strlit("");
                assert(from@ =~= od + entries@[i as int].name@);
                assert(to@ =~= nd + entries@[i as int].name@);
            }
            if !same(&from, &self.image_path) {
                let ghost prev = rename_views(renames@);
                renames.push(Rename { from, to });
                assert(rename_views(renames@) =~= prev.push((od + entries@[i as int].name@, nd + entries@[i as int].name@)));
            }
            i += 1;
        }
        assert(entries@.subrange(0, entries@.len() as int) =~= entries@);
        self.image_path = header.to_path.clone();
        Ok(Some(ImageMoves { header, renames, remove_dir: Some(old_dir) }))
    }
}

/// Whether two strings are equal.
pub fn same(a: &String, b: &String) -> (r: bool)
    ensures
        r == (a@ == b@),
{
    same_text(a.as_str(), b.as_str())
}

} // verus!
