use alepc::config::CreatePostSettings;
use alepc::validators::{length_validator, modify_action, tags_validator, ChoiceFault, LengthFault, TagsFault};

#[test]
fn length_bounds() {
    assert_eq!(length_validator("  abc  ", 3, 5), Ok(()));
    assert_eq!(length_validator("ab", 3, 5), Err(LengthFault::TooShort));
    assert_eq!(length_validator("abcdef", 3, 5), Err(LengthFault::TooLong));
}

#[test]
fn tag_lists() {
    let s = CreatePostSettings::default();
    assert!(tags_validator("rust, verus", &s).is_ok());
    assert!(matches!(tags_validator(" , ", &s), Err(TagsFault::TooFew)));
    assert!(matches!(tags_validator("aaa,bbb,ccc,ddd", &s), Err(TagsFault::TooMany)));
    match tags_validator("rust,ab,xy", &s) {
        Err(TagsFault::TagTooShort(t)) => assert_eq!(t, "ab"),
        _ => panic!("a short tag must be refused"),
    }
    match tags_validator("rust,verylongtag", &s) {
        Err(TagsFault::TagTooLong(t)) => assert_eq!(t, "verylongtag"),
        _ => panic!("a long tag must be refused"),
    }
    let off = CreatePostSettings { minimum_tags_count: 0, ..Default::default() };
    assert!(tags_validator("", &off).is_ok());
}

#[test]
fn update_choices() {
    assert_eq!(modify_action(&vec![false, false, false]), Err(ChoiceFault::NoneChosen));
    assert_eq!(modify_action(&vec![true, false, true]), Err(ChoiceFault::ShowAllWithOthers));
    assert_eq!(modify_action(&vec![true, true, false]), Ok(()));
    assert_eq!(modify_action(&vec![false, false, true]), Ok(()));
}
