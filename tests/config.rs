use alepc::config::{Config, PathKind};
use alepc::errors::ApcError;
use std::path::Path;

fn kind_of(p: &str) -> PathKind {
    let path = Path::new(p);
    if !path.exists() {
        PathKind::Missing
    } else if path.is_dir() {
        PathKind::Directory
    } else if path.is_file() {
        PathKind::File
    } else {
        PathKind::Other
    }
}

#[test]
fn test_config_validation() {
    let config = Config {
        posts_path: "random".to_owned(),
        ..Default::default()
    };
    let posts = kind_of(&config.posts_path);
    assert!(config
        .configuration(posts, PathKind::Directory, PathKind::File)
        .is_err());
    let valid_config = Config {
        posts_path: "./src".to_owned(),
        images_path: "./src/config/".to_owned(),
        posts_layout: "tests/mod.rs".to_owned(),
        ..Default::default()
    };
    // The file system holds two directories at those paths
    // and the layout file.
    assert!(valid_config
        .configuration(PathKind::Directory, PathKind::Directory, PathKind::File)
        .is_ok())
}

#[test]
fn config_rejects_site_paths_without_slashes() {
    let config = Config {
        blog_site_path: "blog/".to_owned(),
        ..Default::default()
    };
    let r = config.configuration(PathKind::Directory, PathKind::Directory, PathKind::File);
    assert!(matches!(r, Err(alepc::errors::ApcError::Validation(_))));
    let config = Config {
        images_site_path: "/images".to_owned(),
        ..Default::default()
    };
    let r = config.configuration(PathKind::Directory, PathKind::Directory, PathKind::File);
    assert!(matches!(r, Err(alepc::errors::ApcError::Validation(_))));
}

#[test]
fn config_rejects_layout_that_is_not_a_file() {
    let config = Config::default();
    let r = config.configuration(PathKind::Directory, PathKind::Directory, PathKind::Directory);
    assert!(matches!(r, Err(alepc::errors::ApcError::Validation(_))));
    let config = Config::default();
    let r = config.configuration(PathKind::Directory, PathKind::File, PathKind::File);
    assert!(matches!(r, Err(alepc::errors::ApcError::Validation(_))));
}

#[test]
fn config_defaults() {
    let c = Config::default();
    assert_eq!(c.blog_site_path, "/blog/");
    assert_eq!(c.images_site_path, "/images/");
    assert_eq!(c.date_format, "%Y/%m/%d");
    assert_eq!(c.create_post_settings.separated_tags_by, ',');
    assert_eq!(c.create_post_settings.maximum_tags_count, 3);
    assert_eq!(c.modify_post_settings.show_all_question, "Show all");
}

#[test]
fn error_names_and_exit_codes() {

    let all = vec![
        (ApcError::ParseRon("x".to_owned()), "ParseRon", 78u8),
        (ApcError::Validation("x".to_owned()), "Validation", 78),
        (ApcError::FileSystem("x".to_owned()), "FileSystem", 77),
        (ApcError::Requestty("x".to_owned()), "Requestty", 1),
        (ApcError::PostProperties("x".to_owned()), "PostProperties", 1),
        (ApcError::Other("x".to_owned()), "Other", 1),
    ];
    for (e, name, code) in all {
        assert_eq!(e.name(), name);
        assert_eq!(e.exit_code(), code);
        assert_eq!(e.message(), "x");
        assert_eq!(e.is_reported(), name != "Requestty");
    }
}
