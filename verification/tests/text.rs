use audit::text::{chars_of, find_from, holds_char, replace_char, slice_of, string_of};

#[test]
fn chars_and_back() {
    for s in ["", "a", "cpe:/a", "señor ü €", "\\\\", "\u{10FFFF}x"] {
        let chars = chars_of(s);
        let expected: Vec<char> = s.chars().collect();
        assert_eq!(expected, chars);
        assert_eq!(s, string_of(&chars));
    }
}

#[test]
fn string_of_appends_every_character() {
    assert_eq!("ab", string_of(&vec!['a', 'b']));
    assert_eq!("", string_of(&Vec::new()));
    assert_eq!("€uro", string_of(&vec!['€', 'u', 'r', 'o']));
}

#[test]
fn replace_char_replaces_every_occurrence() {
    let s: Vec<char> = "a b  c".chars().collect();
    assert_eq!("abc", string_of(&replace_char(&s, ' ', &Vec::new())));
    assert_eq!("a%20b%20%20c", string_of(&replace_char(&s, ' ', &vec!['%', '2', '0'])));
    assert_eq!("a b  c", string_of(&replace_char(&s, 'x', &vec!['y'])));
    assert_eq!("", string_of(&replace_char(&Vec::new(), 'x', &vec!['y'])));
    // What is put in is not looked at again.
    let s: Vec<char> = "aa".chars().collect();
    assert_eq!("aaaa", string_of(&replace_char(&s, 'a', &vec!['a', 'a'])));
}

#[test]
fn find_from_gives_first_index_or_length() {
    let s: Vec<char> = "a/b/c".chars().collect();
    assert_eq!(1, find_from(&s, '/', 0));
    assert_eq!(1, find_from(&s, '/', 1));
    assert_eq!(3, find_from(&s, '/', 2));
    assert_eq!(5, find_from(&s, '/', 4));
    assert_eq!(5, find_from(&s, '/', 5));
    assert_eq!(5, find_from(&s, '@', 0));
    assert_eq!(0, find_from(&Vec::new(), '/', 0));
}

#[test]
fn slice_of_gives_the_range() {
    let s: Vec<char> = "a/b/c".chars().collect();
    assert_eq!("a/b/c", string_of(&slice_of(&s, 0, 5)));
    assert_eq!("/b", string_of(&slice_of(&s, 1, 3)));
    assert_eq!("", string_of(&slice_of(&s, 2, 2)));
    assert_eq!("", string_of(&slice_of(&s, 5, 5)));
}

#[test]
fn holds_char_tells_occurrence() {
    assert!(holds_char("a/b", '/'));
    assert!(holds_char("/", '/'));
    assert!(!holds_char("ab", '/'));
    assert!(!holds_char("", '/'));
}
