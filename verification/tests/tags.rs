use workshop_uploader::check_tags_are_predefined;
use workshop_uploader::Tag;
use workshop_uploader::TagError;

fn tag(s: &str) -> Tag {
    Tag::new(s.to_string()).expect("tag should be valid")
}

#[test]
fn ordinary_tag_is_accepted() {
    let t = tag("Multiplayer Map");
    assert_eq!(t.as_text(), "Multiplayer Map");
}

#[test]
fn empty_tag_is_rejected() {
    let e = Tag::new(String::new()).err().unwrap();
    assert!(matches!(e, TagError::Empty));
    assert_eq!(e.message(), "Empty tags are not allowed");
}

#[test]
fn overlong_tag_is_rejected() {
    let ok = "x".repeat(255);
    assert!(Tag::new(ok).is_ok());
    let long = "x".repeat(256);
    let e = Tag::new(long).err().unwrap();
    assert!(matches!(e, TagError::TooLong));
}

#[test]
fn tag_with_comma_is_rejected() {
    let e = Tag::new("a,b".to_string()).err().unwrap();
    assert!(matches!(e, TagError::InvalidChar));
}

#[test]
fn tag_with_control_character_is_rejected() {
    let e = Tag::new("a\u{1}b".to_string()).err().unwrap();
    assert!(matches!(e, TagError::InvalidChar));
}

#[test]
fn tag_with_non_ascii_is_rejected() {
    let e = Tag::new("caf\u{e9}".to_string()).err().unwrap();
    assert!(matches!(e, TagError::InvalidChar));
}

#[test]
fn membership_in_predefined_tags_goes_by_text() {
    let predefined = vec![tag("Maps"), tag("Mods")];
    assert!(tag("Maps").is_in_predefined_tags(&predefined));
    assert!(!tag("Skins").is_in_predefined_tags(&predefined));
}

#[test]
fn all_predefined_tags_pass_the_check() {
    let predefined = vec![tag("Maps"), tag("Mods")];
    let tags = vec![tag("Mods"), tag("Maps")];
    assert!(check_tags_are_predefined(&tags, &predefined).is_ok());
}

#[test]
fn first_unknown_tag_is_reported() {
    let predefined = vec![tag("Maps")];
    let tags = vec![tag("Maps"), tag("Skins"), tag("Sounds")];
    let e = check_tags_are_predefined(&tags, &predefined).err().unwrap();
    match e {
        TagError::NotPredefined(t) => assert_eq!(t.as_text(), "Skins"),
        _ => panic!("wrong error variant"),
    }
}

#[test]
fn empty_tag_list_passes_the_check() {
    let predefined = vec![tag("Maps")];
    let tags: Vec<Tag> = Vec::new();
    assert!(check_tags_are_predefined(&tags, &predefined).is_ok());
}
