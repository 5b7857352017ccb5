use spider_crab::text::{chars_of, has_char, starts_with_char};

#[test]
fn chars_of_text() {
    assert_eq!(chars_of(""), Vec::<char>::new());
    assert_eq!(chars_of("a.b"), vec!['a', '.', 'b']);
    assert_eq!(chars_of("việt"), vec!['v', 'i', 'ệ', 't']);
}

#[test]
fn first_character() {
    assert!(starts_with_char("#top", '#'));
    assert!(starts_with_char("/", '/'));
    assert!(!starts_with_char("", '/'));
    assert!(!starts_with_char("a/", '/'));
    assert!(starts_with_char("éa", 'é'));
}

#[test]
fn character_among_others() {
    assert!(has_char(&vec!['a', '.', 'b'], '.'));
    assert!(has_char(&vec!['.'], '.'));
    assert!(!has_char(&vec!['a', 'b'], '.'));
    assert!(!has_char(&Vec::new(), '.'));
}
