//! Reconciliation of a modify request: from the current post, the chosen
//! update scope and the edited fields, the post's next state.

use crate::codec::{Props, PropsView};
use crate::config::{Config, ModifyPostSettings};
use crate::date::{formatted_date, ymd, Date};
use crate::errors::{ApcError, ApcResult};
use crate::lifecycle::same;
use crate::post::{bool_text, join_with, Post, PostView};
use crate::text::{concat3, push_char, same_text, slug_of, slug_updater, string_views, tags_of, tags_updater};
use vstd::prelude::*;

verus! {

/// The update scope that the user picked.
#[derive(Clone, Copy, Debug, PartialEq, Eq, Structural)]
pub struct ModifyStatus {
    /// Modify all properties.
    pub all: bool,
    /// Bump the modification date.
    pub date: bool,
    /// Flip the draft status.
    pub draft: bool,
}

impl ModifyStatus {
    /// A scope from its three flags.
    pub fn new(all: bool, date: bool, draft: bool) -> (r: Self)
        ensures
            r == (ModifyStatus { all, date, draft }),
    {
        Self { all, date, draft }
    }

    /// The scope that the selected choices of the update question give.
    pub fn from_selected(selected: &Vec<String>, settings: &ModifyPostSettings) -> (r: Self)
        ensures
            r.all == string_views(selected@).contains(settings.show_all_question@),
            r.date == string_views(selected@).contains(settings.update_the_date_question@),
            r.draft == string_views(selected@).contains(settings.update_draft_status_question@),
    {
        Self::new(
            contains_text(selected, &settings.show_all_question),
            contains_text(selected, &settings.update_the_date_question),
            contains_text(selected, &settings.update_draft_status_question),
        )
    }

    /// Whether only the draft status and the date are updated: either of
    /// them is chosen, and updating every field is not.
    pub open spec fn is_fast(self) -> bool {
        !self.all && (self.draft || self.date)
    }
}

/// Whether every selected choice of the update question is "every field".
pub fn is_show_all_action(selected: &Vec<String>, settings: &ModifyPostSettings) -> (r: bool)
    ensures
        r == forall|i: int| 0 <= i < selected@.len() ==> (#[trigger] selected@[i])@ == settings.show_all_question@,
{
    let mut i: usize = 0;
    while i < selected.len()
        invariant
            i <= selected@.len(),
            forall|j: int| 0 <= j < i ==> (#[trigger] selected@[j])@ == settings.show_all_question@,
        decreases selected@.len() - i,
    {
        if !same(&selected[i], &settings.show_all_question) {
            return false;
        }
        i += 1;
    }
    true
}

fn contains_text(v: &Vec<String>, s: &String) -> (r: bool)
    ensures
        r == string_views(v@).contains(s@),
{
    let mut i: usize = 0;
    while i < v.len()
        invariant
            i <= v@.len(),
            forall|j: int| 0 <= j < i ==> v@[j]@ != s@,
        decreases v@.len() - i,
    {
        if same_text(v[i].as_str(), s.as_str()) {
            assert(string_views(v@)[i as int] == s@);
            return true;
        }
        i += 1;
    }
    assert forall|j: int| 0 <= j < string_views(v@).len() implies string_views(v@)[j] != s@ by {}
    false
}

/// The edits of a full update: `None` keeps the field's current value.
pub struct FieldEdits {
    pub slug: Option<String>,
    pub title: Option<String>,
    pub description: Option<String>,
    /// An on-disk path.
    pub image_path: Option<String>,
    /// A separated list of tags.
    pub tags: Option<String>,
    /// The new draft status.
    pub draft: bool,
}

/// The edited value, or the current one where there is no edit.
pub open spec fn edited(o: Option<String>, current: Seq<char>) -> Seq<char> {
    match o {
        Some(s) => s@,
        None => current,
    }
}

fn edited_value(o: &Option<String>, current: &String) -> (r: String)
    ensures
        r@ == edited(*o, current@),
{
    match o {
        Some(s) => s.clone(),
        None => current.clone(),
    }
}

impl FieldEdits {
    /// The new draft status that the answer to the draft question of a full
    /// update gives: the answer, negated.
    pub fn draft_from_answer(answer: bool) -> (r: bool)
        ensures
            r == !answer,
    {
        !answer
    }

    /// The image that the edits select: the edited one, or the current one.
    pub fn chosen_image(&self, post: &Post) -> (r: String)
        ensures
            r@ == edited(self.image_path, post.image_path@),
    {
        edited_value(&self.image_path, &post.image_path)
    }
}

/// The properties that a modify request gives. In the fast scope the
/// current values are kept, the draft status flipped if asked; in the full
/// scope every field comes from the edits or, where one is absent, from the
/// post, and the modification date is `today`.
pub open spec fn modified_props(
    c: Config,
    status: ModifyStatus,
    post: PostView,
    edits: FieldEdits,
    today: Date,
) -> PropsView {
    if status.is_fast() {
        PropsView {
            slug: post.slug,
            title: post.title,
            description: post.description,
            image_path: post.image_path,
            tags: post.tags,
            draft: if status.draft {
                !post.is_draft
            } else {
                post.is_draft
            },
            date: post.date,
            modified_date: post.date_modified,
        }
    } else {
        PropsView {
            slug: slug_of(edited(edits.slug, post.slug)),
            title: edited(edits.title, post.title),
            description: edited(edits.description, post.description),
            image_path: edited(edits.image_path, post.image_path),
            tags: match edits.tags {
                Some(t) => tags_of(t@, c.create_post_settings.separated_tags_by),
                None => post.tags,
            },
            draft: edits.draft,
            date: post.date,
            modified_date: today,
        }
    }
}

fn clone_tags(tags: &Vec<String>) -> (r: Vec<String>)
    ensures
        string_views(r@) == string_views(tags@),
{
    let mut r: Vec<String> = Vec::new();
    let mut i: usize = 0;
    while i < tags.len()
        invariant
            i <= tags@.len(),
            string_views(r@) == string_views(tags@.subrange(0, i as int)),
        decreases tags@.len() - i,
    {
        let t = tags[i].clone();
        assert(t@ == tags@[i as int]@);
        let ghost prev = r@;
        r.push(t);
        assert(r@ == prev.push(t));
        assert(string_views(r@) =~= string_views(prev).push(t@));
        assert(string_views(tags@.subrange(0, i + 1)) =~= string_views(tags@.subrange(0, i as int)).push(
            tags@[i as int]@,
        ));
        i += 1;
    }
    assert(tags@.subrange(0, tags@.len() as int) =~= tags@);
    r
}

impl Props {
    /// The properties that a modify request gives (see `modified_props`).
    /// `image_exists` says whether the image that the edits select exists;
    /// in the full scope a missing one is refused.
    pub fn modified_from_answers(
        config: &Config,
        status: &ModifyStatus,
        post: &Post,
        edits: &FieldEdits,
        image_exists: bool,
        today: Date,
    ) -> (r: ApcResult<Props>)
        ensures
            status.is_fast() || image_exists ==> r is Ok && r->Ok_0@ == modified_props(
                *config,
                *status,
                post@,
                *edits,
                today,
            ),
            !status.is_fast() && !image_exists ==> r is Err && r->Err_0 is Validation,
    {
        if !status.all && (status.draft || status.date) {
            return Ok(
                Props {
                    slug: post.slug.clone(),
                    title: post.title.clone(),
                    description: post.description.clone(),
                    image_path: post.image_path.clone(),
                    tags: clone_tags(&post.tags),
                    draft: if status.draft {
                        !post.is_draft
                    } else {
                        post.is_draft
                    },
                    date: post.date,
                    modified_date: post.date_modified,
                },
            );
        }
        let image_path = edits.chosen_image(post);
        if !image_exists {
            return Err(
                ApcError::Validation(
                    concat3("The post image doesn't exist: ", image_path.as_str(), ""),
                ),
            );
        }
        let slug = slug_updater(edited_value(&edits.slug, &post.slug).as_str());
        let tags = match &edits.tags {
            Some(t) => tags_updater(t.as_str(), config.create_post_settings.separated_tags_by),
            None => clone_tags(&post.tags),
        };
        Ok(
            Props {
                slug,
                title: edited_value(&edits.title, &post.title),
                description: edited_value(&edits.description, &post.description),
                image_path,
                tags,
                draft: edits.draft,
                date: post.date,
                modified_date: today,
            },
        )
    }
}

/// What a run of the tool does.
pub enum Action {
    /// Write a new post.
    Create(Post),
    /// Rename, move the images of, and rewrite an existing post.
    Modify { new_post: Post, new_slug: String, new_image_path: String },
    /// Show the version.
    Version,
}

/// The post that a modify request leaves, before the slug and image change:
/// title, description, draft status and tags from the properties, and the
/// modification date bumped to `today` where the scope asks.
pub open spec fn modified_post(status: ModifyStatus, post: PostView, p: PropsView, today: Date) -> PostView {
    PostView {
        title: p.title,
        description: p.description,
        is_draft: p.draft,
        tags: p.tags,
        date_modified: if status.all || status.date {
            today
        } else {
            post.date_modified
        },
        ..post
    }
}

impl Post {
    /// Reconciles a modify request with the current post. `image_exists`
    /// says whether the image that the edits select exists; `image_dirs`
    /// lists the names in the images directory, where a new slug must not
    /// already stand.
    pub fn modify_action(
        config: &Config,
        post: Post,
        status: &ModifyStatus,
        edits: &FieldEdits,
        image_exists: bool,
        image_dirs: &Vec<String>,
        today: Date,
    ) -> (r: ApcResult<Action>)
        ensures
            ({
                let p = modified_props(*config, *status, post@, *edits, today);
                &&& !status.is_fast() && !image_exists ==> r is Err && r->Err_0 is Validation
                &&& (status.is_fast() || image_exists) && p.slug != post.slug@ && string_views(
                    image_dirs@,
                ).contains(p.slug) ==> r is Err && r->Err_0 is PostProperties
                &&& (status.is_fast() || image_exists) && !(p.slug != post.slug@ && string_views(
                    image_dirs@,
                ).contains(p.slug)) ==> r is Ok && match r->Ok_0 {
                    Action::Modify { new_post, new_slug, new_image_path } => new_post@ == modified_post(
                        *status,
                        post@,
                        p,
                        today,
                    ) && new_slug@ == p.slug && new_image_path@ == p.image_path,
                    _ => false,
                }
            }),
    {
        let props = Props::modified_from_answers(config, status, &post, edits, image_exists, today)?;
        if !same(&post.slug, &props.slug) && contains_text(image_dirs, &props.slug) {
            return Err(
                ApcError::PostProperties(String::from_str("The new slug already exists")),
            );
        }
        let mut post = post;
        let new_image_path = props.image_path.clone();
        post.title = props.title;
        post.description = props.description;
        post.is_draft = props.draft;
        post.tags = props.tags;
        if status.all || status.date {
            post.date_modified = today;
        }
        Ok(Action::Modify { new_post: post, new_slug: props.slug, new_image_path })
    }
}


/// Updating the draft status alone flips it and leaves every other field of
/// the post, the slug and the modification date included, as it was.
pub proof fn lemma_draft_toggle_only(c: Config, post: PostView, edits: FieldEdits, today: Date)
    ensures
        ({
            let s = ModifyStatus { all: false, date: false, draft: true };
            let p = modified_props(c, s, post, edits, today);
            &&& p.slug == post.slug
            &&& modified_post(s, post, p, today) == (PostView { is_draft: !post.is_draft, ..post })
        }),
{
}


/// A field of a post whose current value the modify questions show.
#[derive(Clone, Copy, Debug, PartialEq, Eq, Structural)]
pub enum PostProperties {
    Slug,
    Title,
    Description,
    Image,
    Tags,
    Draft,
    Date,
}

impl PostProperties {
    /// The current value of the field, as text: tags joined by the
    /// configured separator, the draft status as `true` or `false`, the
    /// creation date in the configured format.
    pub fn from_post(&self, post: &Post, config: &Config) -> (r: ApcResult<String>)
        ensures
            match *self {
                PostProperties::Slug => r is Ok && r->Ok_0@ == post.slug@,
                PostProperties::Title => r is Ok && r->Ok_0@ == post.title@,
                PostProperties::Description => r is Ok && r->Ok_0@ == post.description@,
                PostProperties::Image => r is Ok && r->Ok_0@ == post.image_path@,
                PostProperties::Tags => r is Ok && r->Ok_0@ == join_with(
                    string_views(post.tags@),
                    seq![config.create_post_settings.separated_tags_by],
                ),
                PostProperties::Draft => r is Ok && r->Ok_0@ == bool_text(post.is_draft),
                PostProperties::Date => match formatted_date(ymd(post.date), config.date_format@) {
                    Some(d) => r is Ok && r->Ok_0@ == d,
                    None => r is Err && r->Err_0 is Validation,
                },
            },
    {
        match self {
            PostProperties::Slug => Ok(post.slug.clone()),
            PostProperties::Title => Ok(post.title.clone()),
            PostProperties::Description => Ok(post.description.clone()),
            PostProperties::Image => Ok(post.image_path.clone()),
            PostProperties::Tags => Ok(join_chars(&post.tags, config.create_post_settings.separated_tags_by)),
            PostProperties::Draft => Ok(
                String::from_str(
                    if post.is_draft {
                        "true"
                    } else {
                        "false"
                    },
                ),
            ),
            PostProperties::Date => post.date.format(config.date_format.as_str()),
        }
    }
}

fn join_chars(parts: &Vec<String>, sep: char) -> (r: String)
    ensures
        r@ == join_with(string_views(parts@), seq![sep]),
{
    let ghost q = string_views(parts@);
    let mut s = String::new();
    let mut i: usize = 0;
    assert(q.subrange(0, 0) =~= Seq::<Seq<char>>::empty());
    while i < parts.len()
        invariant
            q == string_views(parts@),
            i <= parts@.len(),
            s@ == join_with(q.subrange(0, i as int), seq![sep]),
        decreases parts@.len() - i,
    {
        assert(q.subrange(0, i + 1).drop_last() =~= q.subrange(0, i as int));
        if i > 0 {
            push_char(&mut s, sep);
        }
        s.append(parts[i].as_str());
        i += 1;
    }
    assert(q.subrange(0, parts@.len() as int) =~= q);
    s
}

} // verus!
