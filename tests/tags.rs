use chat_script::{ChatContent, Choice, Line, Tag, Tagged};

#[derive(Debug, PartialEq)]
enum Mood {
    Happy,
    Sad,
}

impl Tag for Mood {
    fn parse(name: &str) -> Option<Self> {
        <Self as Tag>::from(name)
    }

    fn from(string: &str) -> Option<Self> {
        match string {
            "happy" => Some(Mood::Happy),
            "sad" => Some(Mood::Sad),
            _ => None,
        }
    }
}

#[derive(Debug, PartialEq)]
struct Flag(u32);

impl Tag for Flag {
    fn parse(name: &str) -> Option<Self> {
        <Self as Tag>::from(name)
    }

    fn from(string: &str) -> Option<Self> {
        string.strip_prefix("flag_").and_then(|n| n.parse().ok()).map(Flag)
    }
}

fn line(tags: &'static [&'static str]) -> Line {
    match Line::new("text", tags, None) {
        ChatContent::Line(line) => line,
        _ => panic!("expected a line"),
    }
}

#[test]
fn tag_names_are_kept_in_order() {
    let l = line(&["b", "a", "b"]);
    assert_eq!(l.get_tag_names(), &["b", "a", "b"]);
    let c = Choice::new("x", &["z_1"], None);
    assert_eq!(c.get_tag_names(), &["z_1"]);
}

#[test]
fn get_tags_keeps_converting_names_in_order() {
    let l = line(&["flag_3", "happy", "junk", "flag_1", "sad", "flag_3"]);
    assert_eq!(l.get_tags::<Flag>(), vec![Flag(3), Flag(1), Flag(3)]);
    assert_eq!(l.get_tags::<Mood>(), vec![Mood::Happy, Mood::Sad]);
}

#[test]
fn get_tags_is_empty_without_matches() {
    assert!(line(&[]).get_tags::<Mood>().is_empty());
    assert!(line(&["junk", "flag_x"]).get_tags::<Flag>().is_empty());
}

#[test]
fn get_tag_is_first_of_get_tags() {
    let l = line(&["junk", "sad", "happy"]);
    assert_eq!(l.get_tag::<Mood>(), Some(Mood::Sad));
    assert_eq!(l.get_tag::<Mood>(), l.get_tags::<Mood>().into_iter().next());
    assert_eq!(l.get_tag::<Flag>(), None);
    assert_eq!(line(&[]).get_tag::<Mood>(), None);
}

#[test]
fn includes_tag_name_is_exact() {
    let l = line(&["happy", "flag_2"]);
    assert!(l.includes_tag_name("happy"));
    assert!(l.includes_tag_name("flag_2"));
    assert!(!l.includes_tag_name("Happy"));
    assert!(!l.includes_tag_name("happ"));
    assert!(!l.includes_tag_name("happy_"));
    assert!(!l.includes_tag_name(""));
    assert!(!line(&[]).includes_tag_name("happy"));
}

#[test]
fn includes_tag_compares_converted_values() {
    let c = Choice::new("go", &["flag_7", "sad", "flag_02"], Some(1));
    assert!(c.includes_tag(&Flag(7)));
    assert!(c.includes_tag(&Flag(2)));
    assert!(!c.includes_tag(&Flag(3)));
    assert!(c.includes_tag(&Mood::Sad));
    assert!(!c.includes_tag(&Mood::Happy));
    assert!(!line(&[]).includes_tag(&Mood::Sad));
}
