use alepc::codec::{parse_props, Props};
use alepc::config::Config;
use alepc::date::{parse_naive_date, parse_str_date, Date};
use alepc::errors::ApcError;
use alepc::lifecycle::{copy_post_header, expand_home, replace_tilde_with_home_dir, ImageEntry};
use alepc::modify::{is_show_all_action, Action, FieldEdits, ModifyStatus, PostProperties};
use alepc::post::{to_post_path, Post};

fn config() -> Config {
    Config {
        posts_path: "/site/posts/".to_owned(),
        images_path: "/site/public/images/".to_owned(),
        ..Default::default()
    }
}

fn day(year: i32, month: u32, day: u32) -> Date {
    Date { year, month, day }
}

fn sample_post(c: &Config, draft: bool) -> Post {
    Post::try_new(
        c,
        "Hello World".to_owned(),
        "hello-world".to_owned(),
        draft,
        "A first post".to_owned(),
        vec!["a".to_owned(), "b".to_owned()],
        "/site/public/images/hello-world/hello-world-header.png".to_owned(),
        day(2024, 1, 5),
        day(2024, 2, 6),
        true,
    )
    .unwrap()
}

fn header_line<'a>(text: &'a str, key: &str) -> &'a str {
    text.lines()
        .find(|l| l.starts_with(&format!("{key}:")))
        .unwrap()
}

const HEADER: &str = "title: \"T\"\nlayout: \"L\"\nimage: \"/images/x/x.png\"\nlink: \"/blog/x\"\ndate: \"2024/01/05\"\ndateModified: \"2024/01/06\"\ndescription: \"D\"\ndraft: true\ntags: [\"a\"]";

#[test]
fn encoded_post_has_fixed_header() {
    let c = config();
    let post = sample_post(&c, true);
    let text = post.full_properties(&c).unwrap();
    let expected = "---\ntitle: \"Hello World\"\nlayout: \"../../layouts/blog.astro\"\nimage: \"/images/hello-world/hello-world-header.png\"\nlink: \"/blog/hello-world\"\ndate: \"2024/01/05\"\ndateModified: \"2024/02/06\"\ndescription: \"A first post\"\ndraft: true\ntags: [\"a\", \"b\"]\n---\n\n# Hello World\n";
    assert_eq!(text, expected);
}

#[test]
fn round_trip_keeps_fields() {
    let c = config();
    let post = sample_post(&c, false);
    let text = post.full_properties(&c).unwrap();
    let header = parse_props(&text).unwrap();
    let props = Props::from_str(&header, "p.md", &c).unwrap();
    assert_eq!(props.slug, post.slug);
    assert_eq!(props.title, post.title);
    assert_eq!(props.description, post.description);
    assert_eq!(props.image_path, post.image_path);
    assert_eq!(props.tags, post.tags);
    assert_eq!(props.draft, post.is_draft);
    assert_eq!(props.date, post.date);
    assert_eq!(props.modified_date, post.date_modified);
}

#[test]
fn decode_with_eight_keys_fails() {
    let c = config();
    for key in ["title", "layout", "image", "link", "date", "dateModified", "description", "draft", "tags"] {
        let eight: Vec<&str> = HEADER
            .lines()
            .filter(|l| !l.starts_with(&format!("{key}:")))
            .collect();
        assert_eq!(eight.len(), 8);
        let r = Props::from_str(&eight.join("\n"), "p.md", &c);
        assert!(matches!(r, Err(ApcError::PostProperties(_))), "{key}");
        let file = format!("---\n{}\n---\n", eight.join("\n"));
        assert!(matches!(parse_props(&file), Err(ApcError::PostProperties(_))));
    }
    assert!(Props::from_str(HEADER, "p.md", &c).is_ok());
}

#[test]
fn decode_with_duplicate_title_names_it() {
    let c = config();
    let doubled = format!("title: \"Again\"\n{HEADER}");
    match Props::from_str(&doubled, "p.md", &c) {
        Err(ApcError::PostProperties(m)) => {
            assert_eq!(m, "'title' is a duplicate key in p.md");
            assert!(m.contains("title"));
        }
        _ => panic!("a duplicate key must be refused"),
    }
}

#[test]
fn decode_rejects_unknown_key_and_bad_values() {
    let c = config();
    let unknown = HEADER.replace("layout", "author");
    assert!(matches!(
        Props::from_str(&unknown, "p.md", &c),
        Err(ApcError::PostProperties(_))
    ));
    let bad_draft = HEADER.replace("draft: true", "draft: maybe");
    assert!(matches!(
        Props::from_str(&bad_draft, "p.md", &c),
        Err(ApcError::PostProperties(_))
    ));
    let bad_date = HEADER.replace("2024/01/05", "2024/13/05");
    assert!(matches!(
        Props::from_str(&bad_date, "p.md", &c),
        Err(ApcError::PostProperties(_))
    ));
    let bad_image = HEADER.replace("/images/x", "/img/x");
    assert!(matches!(
        Props::from_str(&bad_image, "p.md", &c),
        Err(ApcError::Validation(_))
    ));
    let bad_link = HEADER.replace("/blog/x", "/news/x");
    assert!(matches!(
        Props::from_str(&bad_link, "p.md", &c),
        Err(ApcError::Validation(_))
    ));
    match Props::from_str(&unknown, "p.md", &c) {
        Err(ApcError::PostProperties(m)) => assert_eq!(m, "'author' is not a valid key in p.md"),
        _ => panic!("an unknown key must be refused"),
    }
    let no_colon = HEADER.replace("draft: true", "draft");
    assert!(matches!(
        Props::from_str(&no_colon, "p.md", &c),
        Err(ApcError::PostProperties(_))
    ));
}

#[test]
fn decode_maps_image_and_slug() {
    let c = config();
    let p = Props::from_str(HEADER, "p.md", &c).unwrap();
    assert_eq!(p.image_path, "/site/public/images/x/x.png");
    assert_eq!(p.slug, "x");
    assert_eq!(p.date, day(2024, 1, 5));
    assert_eq!(p.modified_date, day(2024, 1, 6));
    assert_eq!(p.tags, vec!["a".to_owned()]);
}

#[test]
fn header_block_is_extracted() {
    let text = format!("---\n{HEADER}\n---\n\n# T\n");
    assert_eq!(parse_props(&text).unwrap(), HEADER);
    let short = format!("---\n{HEADER}\n");
    assert!(matches!(parse_props(&short), Err(ApcError::PostProperties(_))));
    let spaced_key = format!("---\n{}\n---\n", HEADER.replace("layout:", "lay out:"));
    assert!(matches!(parse_props(&spaced_key), Err(ApcError::PostProperties(_))));
    let no_marker = format!("--\n{HEADER}\n---\n");
    assert!(matches!(parse_props(&no_marker), Err(ApcError::PostProperties(_))));
}

#[test]
fn create_with_missing_image_fails() {
    let c = config();
    let r = Post::create_action(&c, "Title", "slug", "Desc", "a", "/nowhere/x.png", false, day(2024, 1, 1));
    assert!(matches!(r, Err(ApcError::Validation(_))));
}

#[test]
fn create_end_to_end() {
    let c = config();
    let post = Post::create_action(
        &c,
        "Hello World",
        "Hello_World",
        "  Some description ",
        "a,b",
        "/tmp/pictures/cover.jpg",
        true,
        day(2024, 3, 1),
    )
    .unwrap();
    assert_eq!(post.path(&c), "/site/posts/hello-world.md");
    assert_eq!(post.description, "Some description");
    assert_eq!(
        post.image_path,
        "/site/public/images/hello-world/hello-world-header.jpg"
    );
    let text = post.full_properties(&c).unwrap();
    let props = Props::from_str(&parse_props(&text).unwrap(), "p.md", &c).unwrap();
    assert_eq!(props.slug, "hello-world");
    assert_eq!(props.tags, vec!["a".to_owned(), "b".to_owned()]);
    assert!(props.draft);
    assert_eq!(to_post_path(&c, "Hello_World"), "/site/posts/hello-world.md");
}

#[test]
fn fast_path_toggles_draft_only() {
    let c = config();
    let post = sample_post(&c, true);
    let before = post.full_properties(&c).unwrap();
    let status = ModifyStatus::new(false, false, true);
    let edits = FieldEdits {
        slug: Some("other".to_owned()),
        title: Some("Other".to_owned()),
        description: None,
        image_path: None,
        tags: None,
        draft: true,
    };
    let action =
        Post::modify_action(&c, post, &status, &edits, false, &vec![], day(2030, 1, 1)).unwrap();
    match action {
        Action::Modify { new_post, new_slug, .. } => {
            assert!(!new_post.is_draft);
            assert_eq!(new_slug, "hello-world");
            let after = new_post.full_properties(&c).unwrap();
            assert_eq!(header_line(&after, "draft"), "draft: false");
            for key in ["title", "description", "tags", "link", "dateModified", "date"] {
                assert_eq!(header_line(&after, key), header_line(&before, key));
            }
        }
        _ => panic!("a modify action is expected"),
    }
}

#[test]
fn date_only_update_bumps_modified_date() {
    let c = config();
    let post = sample_post(&c, true);
    let status = ModifyStatus::new(false, true, false);
    let edits = FieldEdits { slug: None, title: None, description: None, image_path: None, tags: None, draft: false };
    match Post::modify_action(&c, post, &status, &edits, true, &vec![], day(2030, 1, 1)).unwrap() {
        Action::Modify { new_post, .. } => {
            assert!(new_post.is_draft);
            assert_eq!(new_post.date_modified, day(2030, 1, 1));
            assert_eq!(new_post.date, day(2024, 1, 5));
        }
        _ => panic!("a modify action is expected"),
    }
}

#[test]
fn full_update_takes_edits() {
    let c = config();
    let post = sample_post(&c, true);
    let status = ModifyStatus::new(true, false, false);
    let edits = FieldEdits {
        slug: Some("New Slug".to_owned()),
        title: None,
        description: Some("Changed".to_owned()),
        image_path: None,
        tags: Some("X, y".to_owned()),
        draft: false,
    };
    match Post::modify_action(&c, post, &status, &edits, true, &vec!["hello-world".to_owned()], day(2030, 1, 1)).unwrap() {
        Action::Modify { new_post, new_slug, new_image_path } => {
            assert_eq!(new_slug, "new-slug");
            assert_eq!(new_post.title, "Hello World");
            assert_eq!(new_post.description, "Changed");
            assert_eq!(new_post.tags, vec!["x".to_owned(), "y".to_owned()]);
            assert!(!new_post.is_draft);
            assert_eq!(new_post.date_modified, day(2030, 1, 1));
            assert_eq!(new_image_path, new_post.image_path);
        }
        _ => panic!("a modify action is expected"),
    }
}

#[test]
fn full_update_refuses_missing_image_and_taken_slug() {
    let c = config();
    let status = ModifyStatus::new(true, false, false);
    let edits = FieldEdits { slug: Some("taken".to_owned()), title: None, description: None, image_path: None, tags: None, draft: false };
    let r = Post::modify_action(&c, sample_post(&c, true), &status, &edits, false, &vec![], day(2030, 1, 1));
    assert!(matches!(r, Err(ApcError::Validation(_))));
    let r = Post::modify_action(&c, sample_post(&c, true), &status, &edits, true, &vec!["taken".to_owned()], day(2030, 1, 1));
    assert!(matches!(r, Err(ApcError::PostProperties(_))));
}

#[test]
fn modify_status_from_selected_choices() {
    let c = Config::default();
    let s = &c.modify_post_settings;
    let st = ModifyStatus::from_selected(&vec![s.update_draft_status_question.clone()], s);
    assert_eq!(st, ModifyStatus::new(false, false, true));
    let st = ModifyStatus::from_selected(&vec![s.show_all_question.clone()], s);
    assert_eq!(st, ModifyStatus::new(true, false, false));
}

#[test]
fn rename_to_existing_slug_fails() {
    let c = config();
    let post = sample_post(&c, true);
    let r = post.slug_rename(&c, "Taken Slug", true);
    assert!(matches!(r, Err(ApcError::PostProperties(_))));
    let r = post.slug_rename(&c, "Hello World", true).unwrap();
    assert!(r.is_none());
    let r = post.slug_rename(&c, "Fresh", false).unwrap().unwrap();
    assert_eq!(r.from, "/site/posts/hello-world.md");
    assert_eq!(r.to, "/site/posts/fresh.md");
}

#[test]
fn update_slug_changes_link() {
    let c = config();
    let mut post = sample_post(&c, true);
    post.update_slug(&c, "New_One");
    assert_eq!(post.slug, "new-one");
    assert_eq!(post.link, "/blog/new-one");
}

#[test]
fn images_follow_slug() {
    let c = config();
    let mut post = sample_post(&c, true);
    post.update_slug(&c, "moved");
    let entries = vec![
        ImageEntry { name: "hello-world-header.png".to_owned(), is_file: true },
        ImageEntry { name: "figure.svg".to_owned(), is_file: true },
    ];
    let old_image = post.image_path.clone();
    let moves = post.update_images(&c, "hello-world", &old_image, &entries).unwrap().unwrap();
    assert_eq!(moves.header.dir, "/site/public/images/moved/");
    assert_eq!(moves.header.to_path, "/site/public/images/moved/moved-header.png");
    assert_eq!(moves.renames.len(), 1);
    assert_eq!(moves.renames[0].from, "/site/public/images/hello-world/figure.svg");
    assert_eq!(moves.renames[0].to, "/site/public/images/moved/figure.svg");
    assert_eq!(moves.remove_dir.as_deref(), Some("/site/public/images/hello-world/"));
    assert_eq!(post.image_path, "/site/public/images/moved/moved-header.png");
}

#[test]
fn images_directory_must_be_flat() {
    let c = config();
    let mut post = sample_post(&c, true);
    post.update_slug(&c, "moved");
    let entries = vec![ImageEntry { name: "nested".to_owned(), is_file: false }];
    assert!(matches!(
        post.update_images(&c, "hello-world", "/tmp/new.png", &entries),
        Err(ApcError::Other(_))
    ));
    let mut same = sample_post(&c, true);
    let image = same.image_path.clone();
    assert!(same.update_images(&c, "hello-world", &image, &entries).unwrap().is_none());
}

#[test]
fn header_copy_destination() {
    let c = config();
    let h = copy_post_header(&c, "My Post", "/tmp/a.b/photo.JPG");
    assert_eq!(h.dir, "/site/public/images/my-post/");
    assert_eq!(h.to_path, "/site/public/images/my-post/my-post-header.JPG");
    let h = copy_post_header(&c, "p", "/tmp/photo");
    assert_eq!(h.to_path, "/site/public/images/p/p-header.png");
    let h = copy_post_header(&c, "p", "/tmp/.hidden");
    assert_eq!(h.to_path, "/site/public/images/p/p-header.png");
}

#[test]
fn tilde_is_replaced_by_home() {
    assert_eq!(replace_tilde_with_home_dir("~/pics/a.png", "/home/me"), "/home/me/pics/a.png");
    assert_eq!(replace_tilde_with_home_dir("/abs/a.png", "/home/me"), "/abs/a.png");
    assert_eq!(expand_home("/abs/a.png").unwrap(), "/abs/a.png");
}

#[test]
fn dates_parse_and_format() {
    let d = parse_naive_date("2024/02/29", "%Y/%m/%d").unwrap();
    assert_eq!(d, day(2024, 2, 29));
    assert_eq!(d.format("%Y/%m/%d").unwrap(), "2024/02/29");
    assert_eq!(d.format("%d.%m.%Y").unwrap(), "29.02.2024");
    assert!(matches!(
        parse_naive_date("2023/02/29", "%Y/%m/%d"),
        Err(ApcError::PostProperties(_))
    ));
    assert!(matches!(
        parse_str_date("not a date", "%Y/%m/%d"),
        Err(ApcError::PostProperties(_))
    ));
    assert!(matches!(day(2023, 2, 30).format("%Y"), Err(ApcError::Validation(_))));
    let today = Date::today();
    assert!((1..=12).contains(&today.month));
}

#[test]
fn show_all_needs_only_that_choice() {
    let c = Config::default();
    let s = &c.modify_post_settings;
    assert!(is_show_all_action(&vec![s.show_all_question.clone()], s));
    assert!(!is_show_all_action(
        &vec![s.show_all_question.clone(), s.update_the_date_question.clone()],
        s
    ));
}

#[test]
fn property_values_of_a_post() {
    let c = config();
    let post = sample_post(&c, true);
    assert_eq!(PostProperties::Slug.from_post(&post, &c).unwrap(), "hello-world");
    assert_eq!(PostProperties::Tags.from_post(&post, &c).unwrap(), "a,b");
    assert_eq!(PostProperties::Draft.from_post(&post, &c).unwrap(), "true");
    assert_eq!(PostProperties::Date.from_post(&post, &c).unwrap(), "2024/01/05");
    assert_eq!(PostProperties::Title.from_post(&post, &c).unwrap(), "Hello World");
}

#[test]
fn post_without_tags_does_not_read_back() {
    let c = config();
    let mut post = sample_post(&c, true);
    post.tags.clear();
    let text = post.full_properties(&c).unwrap();
    assert!(text.contains("tags: []"));
    let header = parse_props(&text).unwrap();
    assert!(matches!(
        Props::from_str(&header, "p.md", &c),
        Err(ApcError::PostProperties(_))
    ));
}

#[test]
fn post_from_decoded_header() {
    let c = config();
    let props = Props::from_str(HEADER, "p.md", &c).unwrap();
    let post = Post::from_props(&c, props, true).unwrap();
    assert_eq!(post.slug, "x");
    assert_eq!(post.link, "/blog/x");
    assert_eq!(post.layout, c.posts_layout);
    let props = Props::from_str(HEADER, "p.md", &c).unwrap();
    assert!(matches!(Post::from_props(&c, props, false), Err(ApcError::Validation(_))));
}

#[test]
fn tags_with_quotes_are_escaped() {
    let c = config();
    let mut post = sample_post(&c, true);
    post.tags = vec!["a\"b".to_owned(), "c\\d".to_owned()];
    let text = post.full_properties(&c).unwrap();
    assert!(text.contains(&format!("tags: {:?}\n", post.tags)));
}

#[test]
fn draft_answer_is_negated() {
    assert!(!FieldEdits::draft_from_answer(true));
    assert!(FieldEdits::draft_from_answer(false));
}

#[test]
fn new_image_with_same_slug_is_copied() {
    let c = config();
    let mut post = sample_post(&c, true);
    let moves = post.update_images(&c, "hello-world", "/tmp/cover.jpg", &vec![]).unwrap().unwrap();
    assert_eq!(moves.header.to_path, "/site/public/images/hello-world/hello-world-header.jpg");
    assert!(moves.renames.is_empty());
    assert!(moves.remove_dir.is_none());
    assert_eq!(post.image_path, "/site/public/images/hello-world/hello-world-header.jpg");
}

#[test]
fn post_path_gets_a_separator() {
    let c = Config { posts_path: "/site/posts".to_owned(), ..config() };
    assert_eq!(to_post_path(&c, "A b"), "/site/posts/a-b.md");
    let post = sample_post(&c, true);
    assert_eq!(post.path(&c), "/site/posts/hello-world.md");
}

#[test]
fn tags_with_control_characters_use_debug_form() {
    let c = config();
    let mut post = sample_post(&c, true);
    post.tags = vec!["a\tb".to_owned(), "x\u{1}y".to_owned(), "\u{e9}\u{301}".to_owned(), "it's".to_owned()];
    let text = post.full_properties(&c).unwrap();
    assert!(text.contains(&format!("tags: {:?}\n", post.tags)));
}

#[test]
fn colons_in_values_read_back() {
    let c = config();
    let mut post = sample_post(&c, true);
    post.title = "Rust: a tour".to_owned();
    post.description = "a: b: c".to_owned();
    let text = post.full_properties(&c).unwrap();
    let props = Props::from_str(&parse_props(&text).unwrap(), "p.md", &c).unwrap();
    assert_eq!(props.title, "Rust: a tour");
    assert_eq!(props.description, "a: b: c");
}

#[test]
fn every_field_scope_wins_over_fast_path() {
    let c = config();
    let post = sample_post(&c, true);
    let status = ModifyStatus::new(true, true, true);
    let edits = FieldEdits { slug: None, title: Some("New".to_owned()), description: None, image_path: None, tags: None, draft: true };
    match Post::modify_action(&c, post, &status, &edits, true, &vec![], day(2030, 1, 1)).unwrap() {
        Action::Modify { new_post, .. } => {
            assert_eq!(new_post.title, "New");
            assert!(new_post.is_draft);
        }
        _ => panic!("a modify action is expected"),
    }
}
