//! Settings of the tool and their validation.

use crate::errors::{ApcError, ApcResult};
use crate::text::concat3;
use vstd::prelude::*;

verus! {

/// Texts of the first question, which picks the action.
#[derive(Clone, Debug)]
pub struct SelectAction {
    /// The question of select action
    pub select_action_message: String,
    /// Create a new post choice in select
    pub new_post_choice: String,
    /// Update an existing post choice
    pub update_existing_post: String,
    /// Version choice
    pub version_choice: String,
}

impl Default for SelectAction {
    fn default() -> (r: Self)
        ensures
            r.select_action_message@ == "What do you want to do ❓"@,
            r.new_post_choice@ == "Create a new post ✍"@,
            r.update_existing_post@ == "Update existing post 🖌️"@,
            r.version_choice@ == "Alepc Version ⚙"@,
    {
        SelectAction {
            select_action_message: String::from_str("What do you want to do ❓"),
            new_post_choice: String::from_str("Create a new post ✍"),
            update_existing_post: String::from_str("Update existing post 🖌️"),
            version_choice: String::from_str("Alepc Version ⚙"),
        }
    }
}

/// Limits and texts of the questions that create a post.
#[derive(Clone, Debug)]
pub struct CreatePostSettings {
    /// Minimum length of post title
    pub minimum_title_length: u8,
    /// Maximum length of post title
    pub maximum_title_length: u8,
    /// Ask for post title message
    pub title_message: String,
    /// Minimum length of post description
    pub minimum_description_length: u8,
    /// Maximum length of post description
    pub maximum_description_length: u8,
    /// Ask for post description message
    pub description_message: String,
    /// Minimum tags on post
    pub minimum_tags_count: u8,
    /// Maximum tags on post
    pub maximum_tags_count: u8,
    /// Ask for post tags message
    pub tags_message: String,
    /// Character that separates tags
    pub separated_tags_by: char,
    /// Minimum single tag length
    pub minimum_single_tag_length: u8,
    /// Maximum single tag length
    pub maximum_single_tag_length: u8,
    /// Ask for post slug message
    pub slug_message: String,
    /// Minimum length of post slug
    pub minimum_slug_length: u8,
    /// Maximum length of post slug
    pub maximum_slug_length: u8,
    /// Ask for post image message
    pub image_message: String,
}

impl Default for CreatePostSettings {
    fn default() -> (r: Self)
        ensures
            r.minimum_title_length == 7,
            r.maximum_title_length == 30,
            r.title_message@ == "Title of post 📝"@,
            r.minimum_description_length == 10,
            r.maximum_description_length == 255,
            r.description_message@ == "Description of post 📝"@,
            r.minimum_tags_count == 1,
            r.maximum_tags_count == 3,
            r.tags_message@ == "Tags of post (separated by comma)"@,
            r.separated_tags_by == ',',
            r.minimum_single_tag_length == 3,
            r.maximum_single_tag_length == 8,
            r.slug_message@ == "Slug of post"@,
            r.minimum_slug_length == 5,
            r.maximum_slug_length == 20,
            r.image_message@ == "Image of post"@,
    {
        CreatePostSettings {
            minimum_title_length: 7,
            maximum_title_length: 30,
            title_message: String::from_str("Title of post 📝"),
            minimum_description_length: 10,
            maximum_description_length: 255,
            description_message: String::from_str("Description of post 📝"),
            minimum_tags_count: 1,
            maximum_tags_count: 3,
            tags_message: String::from_str("Tags of post (separated by comma)"),
            separated_tags_by: ',',
            minimum_single_tag_length: 3,
            maximum_single_tag_length: 8,
            slug_message: String::from_str("Slug of post"),
            minimum_slug_length: 5,
            maximum_slug_length: 20,
            image_message: String::from_str("Image of post"),
        }
    }
}

/// Texts of the questions that modify a post.
#[derive(Clone, Debug)]
pub struct ModifyPostSettings {
    /// The question of post name
    pub post_name_question: String,
    /// Choice modify action
    pub choice_action: String,
    /// Update date question
    pub update_the_date_question: String,
    /// Update draft status question
    pub update_draft_status_question: String,
    /// Show all fields to update them
    pub show_all_question: String,
    /// New post slug question
    pub new_post_slug: String,
    /// New post title question
    pub new_post_title: String,
    /// New post description question
    pub new_post_descrioption: String,
    /// New post image question
    pub new_post_image: String,
    /// New post tags question
    pub new_post_tags: String,
    /// New post draft status question
    pub new_post_draft: String,
    /// Answer that keeps the old value
    pub keep_old_value_message: String,
}

impl Default for ModifyPostSettings {
    fn default() -> (r: Self)
        ensures
            r.post_name_question@ == "What's the post you want to modify it (Write the slug)"@,
            r.choice_action@ == "What do you want to update?"@,
            r.update_the_date_question@ == "Update modified date"@,
            r.update_draft_status_question@ == "Update draft status"@,
            r.show_all_question@ == "Show all"@,
            r.new_post_slug@ == "New post slug"@,
            r.new_post_title@ == "New post title"@,
            r.new_post_descrioption@ == "New post description"@,
            r.new_post_image@ == "New post image"@,
            r.new_post_tags@ == "New post tags"@,
            r.new_post_draft@ == "Do you want to change draft status?"@,
            r.keep_old_value_message@ == "Press enter to keep it 🤏"@,
    {
        ModifyPostSettings {
            post_name_question: String::from_str("What's the post you want to modify it (Write the slug)"),
            choice_action: String::from_str("What do you want to update?"),
            update_the_date_question: String::from_str("Update modified date"),
            update_draft_status_question: String::from_str("Update draft status"),
            show_all_question: String::from_str("Show all"),
            new_post_slug: String::from_str("New post slug"),
            new_post_title: String::from_str("New post title"),
            new_post_descrioption: String::from_str("New post description"),
            new_post_image: String::from_str("New post image"),
            new_post_tags: String::from_str("New post tags"),
            new_post_draft: String::from_str("Do you want to change draft status?"),
            keep_old_value_message: String::from_str("Press enter to keep it 🤏"),
        }
    }
}

/// Settings of the tool, loaded once at start and passed to every operation.
#[derive(Clone, Debug)]
pub struct Config {
    /// Directory of the post files
    pub posts_path: String,
    /// Directory of the images
    pub images_path: String,
    /// Path of the blog on the site
    pub blog_site_path: String,
    /// Path of the images on the site
    pub images_site_path: String,
    /// Layout of the posts, relative to `posts_path`
    pub posts_layout: String,
    /// Repository url
    pub repository_url: String,
    /// strftime pattern of the dates in post headers
    pub date_format: String,
    /// Select action settings
    pub select_action: SelectAction,
    /// Create post settings
    pub create_post_settings: CreatePostSettings,
    /// Modify post settings
    pub modify_post_settings: ModifyPostSettings,
}

impl Default for Config {
    fn default() -> (r: Self)
        ensures
            r.posts_path@ == "../Aleecers.github.io/src/pages/blog/"@,
            r.images_path@ == "../Aleecers.github.io/public/images/"@,
            r.blog_site_path@ == "/blog/"@,
            r.images_site_path@ == "/images/"@,
            r.posts_layout@ == "../../layouts/blog.astro"@,
            r.repository_url@ == "https://github.com/aleecers/alepc"@,
            r.date_format@ == "%Y/%m/%d"@,
    {
        Config {
            posts_path: String::from_str("../Aleecers.github.io/src/pages/blog/"),
            images_path: String::from_str("../Aleecers.github.io/public/images/"),
            blog_site_path: String::from_str("/blog/"),
            images_site_path: String::from_str("/images/"),
            posts_layout: String::from_str("../../layouts/blog.astro"),
            repository_url: String::from_str("https://github.com/aleecers/alepc"),
            date_format: String::from_str("%Y/%m/%d"),
            select_action: SelectAction::default(),
            create_post_settings: CreatePostSettings::default(),
            modify_post_settings: ModifyPostSettings::default(),
        }
    }
}

/// What the file system holds at a path.
#[derive(Clone, Copy, Debug, PartialEq, Eq)]
pub enum PathKind {
    Missing,
    Directory,
    File,
    Other,
}

/// A site path must start and end with a slash.
pub open spec fn is_site_path(s: Seq<char>) -> bool {
    s.len() > 0 && s[0] == '/' && s.last() == '/'
}

/// Whether the configuration is usable: both directories exist, the layout
/// is a file, and both site paths start and end with a slash.
pub open spec fn config_is_valid(
    c: Config,
    posts_path: PathKind,
    images_path: PathKind,
    layout: PathKind,
) -> bool {
    posts_path == PathKind::Directory && images_path == PathKind::Directory && layout
        == PathKind::File && is_site_path(c.blog_site_path@) && is_site_path(c.images_site_path@)
}

fn check_dir(kind: PathKind, name: &str, value: &String) -> (r: ApcResult<()>)
    ensures
        r is Ok <==> kind == PathKind::Directory,
        r is Err ==> r->Err_0 is Validation,
{
    match kind {
        PathKind::Directory => Ok(()),
        PathKind::Missing => Err(ApcError::Validation(concat3(name, value.as_str(), "' does not exist"))),
        _ => Err(ApcError::Validation(concat3(name, value.as_str(), "' is not a directory"))),
    }
}

fn check_site_path(name: &str, value: &String) -> (r: ApcResult<()>)
    ensures
        r is Ok <==> is_site_path(value@),
        r is Err ==> r->Err_0 is Validation,
{
    let n = value.as_str().unicode_len();
    if n == 0 || value.as_str().get_char(n - 1) != '/' {
        Err(ApcError::Validation(concat3(name, value.as_str(), "' must end with a slash")))
    } else if value.as_str().get_char(0) != '/' {
        Err(ApcError::Validation(concat3(name, value.as_str(), "' must start with a slash")))
    } else {
        Ok(())
    }
}

impl Config {
    /// Returns the configuration if it is valid. The arguments say what the
    /// file system holds at `posts_path`, at `images_path`, and at
    /// `posts_layout` taken relative to `posts_path`.
    pub fn configuration(self, posts_path: PathKind, images_path: PathKind, layout: PathKind) -> (r:
        ApcResult<Config>)
        ensures
            r is Ok <==> config_is_valid(self, posts_path, images_path, layout),
            r is Ok ==> r->Ok_0 == self,
            r is Err ==> r->Err_0 is Validation,
    {
        check_dir(posts_path, "Invalid `posts_path` '", &self.posts_path)?;
        check_dir(images_path, "Invalid `images_path` '", &self.images_path)?;
        match layout {
            PathKind::File => {},
            PathKind::Missing => {
                return Err(
                    ApcError::Validation(
                        concat3("Invalid `posts_layout` '", self.posts_layout.as_str(), "' does not exist"),
                    ),
                );
            },
            _ => {
                return Err(
                    ApcError::Validation(
                        concat3("Invalid `posts_layout` '", self.posts_layout.as_str(), "' is not a file"),
                    ),
                );
            },
        }
        check_site_path("Invalid `blog_site_path` '", &self.blog_site_path)?;
        check_site_path("Invalid `images_site_path` '", &self.images_site_path)?;
        Ok(self)
    }
}

} // verus!
