use charist::library::library::{bible_file_name, bible_name_from_file_name, bible_path_in, bible_path_parts, bibles_dir_in};
use std::path::PathBuf;
use charist::text::{char_ends_word, char_is_whitespace, parse_usize, str_equal, usize_to_string};

#[test]
fn parse_usize_follows_std() {
    for s in ["", "+", "-", "+5", "007", "12a", " 1", "18446744073709551615", "18446744073709551616", "0", "-0"] {
        assert_eq!(parse_usize(s), s.parse::<usize>().ok(), "input {:?}", s);
    }
}

#[test]
fn decimal_rendering_round_trips() {
    for n in [0usize, 5, 10, 99, 100, 123456789, usize::MAX] {
        let s = usize_to_string(n);
        assert_eq!(s, n.to_string());
        assert_eq!(parse_usize(&s), Some(n));
    }
}

#[test]
fn string_equality() {
    assert!(str_equal("abc", "abc"));
    assert!(!str_equal("abc", "abd"));
    assert!(!str_equal("", "a"));
}

#[test]
fn bible_file_names_round_trip() {
    assert_eq!(bible_file_name("KJV"), "KJV.cbor");
    assert_eq!(bible_name_from_file_name("KJV.cbor"), Some("KJV".to_string()));
    assert_eq!(bible_name_from_file_name(&bible_file_name("ESV 2016")), Some("ESV 2016".to_string()));
    assert_eq!(bible_name_from_file_name("a.b.cbor"), Some("a.b".to_string()));
    assert_eq!(bible_name_from_file_name(".cbor"), None);
    assert_eq!(bible_name_from_file_name("KJV.json"), None);
    assert_eq!(bible_name_from_file_name("cbor"), None);
}

#[test]
fn bible_paths_under_a_data_directory() {
    assert_eq!(bible_path_parts("KJV"), vec!["org.barbel.Charist", "bibles", "KJV.cbor"]);
    let p = bible_path_in(Some(PathBuf::from("/data")), "KJV").expect("a path");
    assert_eq!(p.base, PathBuf::from("/data"));
    assert_eq!(p.parts, vec!["org.barbel.Charist", "bibles", "KJV.cbor"]);
    assert!(bible_path_in(None, "KJV").is_none());
    let d = bibles_dir_in(Some(PathBuf::from("/data"))).expect("a path");
    assert_eq!(d.base, PathBuf::from("/data"));
    assert_eq!(d.parts, vec!["org.barbel.Charist", "bibles"]);
    assert!(bibles_dir_in(None).is_none());
}

#[test]
fn whitespace_and_word_ends_follow_std() {
    for c in (0u32..0x11000).filter_map(char::from_u32) {
        assert_eq!(char_is_whitespace(c), c.is_whitespace(), "char {:?}", c);
        assert_eq!(char_ends_word(c), c.is_whitespace() || c.is_ascii_punctuation(), "char {:?}", c);
    }
}
