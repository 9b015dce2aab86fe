use obadh_engine::chars::{
    is_ascii_punctuation, is_boundary, is_punctuation, is_whitespace,
    vowel_sign_to_independent_vowel,
};
use obadh_engine::processor::{append_chars, copy_window, find_kind, is_case_sensitive_consonant};
use obadh_engine::table::{same_chars, MappingTable};
use obadh_engine::text::chars_of;
use obadh_engine::types::{BengaliChar, GlyphKind};

fn key(s: &str) -> Vec<char> {
    s.chars().collect()
}

#[test]
fn punctuation_agrees_with_the_standard_library() {
    let mut code: u32 = 0;
    while code <= 0x10ffff {
        if let Some(c) = char::from_u32(code) {
            assert_eq!(is_ascii_punctuation(c), c.is_ascii_punctuation(), "{:x}", code);
            assert_eq!(is_whitespace(c), c.is_whitespace(), "{:x}", code);
            assert_eq!(is_punctuation(c), c.is_ascii_punctuation() || c.is_whitespace());
            assert_eq!(is_boundary(c), is_punctuation(c) && c != '\\');
        }
        code += 1;
    }
}

#[test]
fn vowel_signs_have_their_independent_vowels() {
    assert_eq!(vowel_sign_to_independent_vowel('\u{9be}'), Some('\u{986}'));
    assert_eq!(vowel_sign_to_independent_vowel('\u{9bf}'), Some('\u{987}'));
    assert_eq!(vowel_sign_to_independent_vowel('\u{9c0}'), Some('\u{988}'));
    assert_eq!(vowel_sign_to_independent_vowel('\u{9c1}'), Some('\u{989}'));
    assert_eq!(vowel_sign_to_independent_vowel('\u{9c2}'), Some('\u{98a}'));
    assert_eq!(vowel_sign_to_independent_vowel('\u{9c3}'), Some('\u{98b}'));
    assert_eq!(vowel_sign_to_independent_vowel('\u{9c7}'), Some('\u{98f}'));
    assert_eq!(vowel_sign_to_independent_vowel('\u{9c8}'), Some('\u{990}'));
    assert_eq!(vowel_sign_to_independent_vowel('\u{9cb}'), Some('\u{993}'));
    assert_eq!(vowel_sign_to_independent_vowel('\u{9cc}'), Some('\u{994}'));
    assert_eq!(vowel_sign_to_independent_vowel('\u{9cd}'), None);
    assert_eq!(vowel_sign_to_independent_vowel('a'), None);
}

#[test]
fn glyph_gives_its_character() {
    assert_eq!(BengaliChar::Vowel('\u{986}').to_char(), '\u{986}');
    assert_eq!(BengaliChar::Consonant('\u{995}').to_char(), '\u{995}');
    assert_eq!(BengaliChar::VowelSign('\u{9be}').to_char(), '\u{9be}');
    assert_eq!(BengaliChar::Special('\u{981}').to_char(), '\u{981}');
    assert_eq!(BengaliChar::Symbol('\\').to_char(), '\\');
    assert_eq!(BengaliChar::Compound(vec!['\u{995}', '\u{9cd}']).to_char(), '\0');
    assert_eq!(BengaliChar::Compound(vec!['x']).kind(), GlyphKind::Compound);
    assert_eq!(BengaliChar::Vowel('x').kind(), GlyphKind::Vowel);
}

#[test]
fn glyph_clone_keeps_the_glyph() {
    let g = BengaliChar::Compound(vec!['a', 'b']);
    match g.clone() {
        BengaliChar::Compound(cs) => assert_eq!(cs, vec!['a', 'b']),
        _ => panic!("clone changed the kind"),
    }
}

#[test]
fn standard_table_holds_the_scheme() {
    let table = MappingTable::standard();
    let a = table.get(&key("a")).unwrap();
    assert_eq!(a.len(), 2);
    assert_eq!(a[0].kind(), GlyphKind::Vowel);
    assert_eq!(a[0].to_char(), '\u{986}');
    assert_eq!(a[1].kind(), GlyphKind::VowelSign);
    assert_eq!(a[1].to_char(), '\u{9be}');
    let o = table.get(&key("o")).unwrap();
    assert_eq!(o.len(), 1);
    assert_eq!(o[0].to_char(), '\u{985}');
    let ng = table.get(&key("NG")).unwrap();
    assert_eq!(ng[0].kind(), GlyphKind::Consonant);
    assert_eq!(ng[0].to_char(), '\u{99e}');
    let y = table.get(&key("y")).unwrap();
    assert_eq!(y[0].to_char(), '\u{9df}');
    let taka = table.get(&key("\\$")).unwrap();
    assert_eq!(taka.len(), 1);
    assert_eq!(taka[0].kind(), GlyphKind::Symbol);
    assert_eq!(taka[0].to_char(), '\u{9f3}');
    let backslash = table.get(&key("\\\\")).unwrap();
    assert_eq!(backslash[0].kind(), GlyphKind::Symbol);
    assert_eq!(backslash[0].to_char(), '\\');
    let chandrabindu = table.get(&key("\\^")).unwrap();
    assert_eq!(chandrabindu[0].kind(), GlyphKind::Special);
    assert_eq!(chandrabindu[0].to_char(), '\u{981}');
    let hasanta = table.get(&key("\\`")).unwrap();
    assert_eq!(hasanta[0].kind(), GlyphKind::Special);
    assert_eq!(hasanta[0].to_char(), '\u{9cd}');
    assert!(table.get(&key("q")).is_none());
    assert!(table.get(&key("K")).is_none());
    assert!(table.get(&key("")).is_none());
}

#[test]
fn insert_replaces_and_extend_merges() {
    let mut table = MappingTable::empty();
    assert!(table.get(&key("k")).is_none());
    table.insert(key("k"), vec![BengaliChar::Consonant('x')]);
    table.insert(key("k"), vec![BengaliChar::Consonant('y')]);
    assert_eq!(table.get(&key("k")).unwrap()[0].to_char(), 'y');
    let mut other = MappingTable::empty();
    other.insert(key("k"), vec![BengaliChar::Consonant('z')]);
    other.insert(key("g"), vec![BengaliChar::Consonant('w')]);
    table.extend(other);
    assert_eq!(table.get(&key("k")).unwrap()[0].to_char(), 'z');
    assert_eq!(table.get(&key("g")).unwrap()[0].to_char(), 'w');
}

#[test]
fn resolve_prefers_the_window_as_written() {
    let table = MappingTable::standard();
    assert_eq!(table.resolve(key("O"), key("o")), Some(key("O")));
    assert_eq!(table.resolve(key("K"), key("k")), Some(key("k")));
    assert_eq!(table.resolve(key("KH"), key("kh")), Some(key("kh")));
    assert_eq!(table.resolve(key("q"), key("q")), None);
    assert_eq!(table.resolve(key("Q"), key("q")), None);
}

#[test]
fn resolve_never_folds_a_case_sensitive_consonant() {
    let mut table = MappingTable::empty();
    table.insert(key("t"), vec![BengaliChar::Consonant('x')]);
    table.insert(key("k"), vec![BengaliChar::Consonant('y')]);
    assert_eq!(table.resolve(key("T"), key("t")), None);
    assert_eq!(table.resolve(key("K"), key("k")), Some(key("k")));
    assert!(is_case_sensitive_consonant(&key("T")));
    assert!(is_case_sensitive_consonant(&key("r")));
    assert!(!is_case_sensitive_consonant(&key("k")));
    assert!(!is_case_sensitive_consonant(&key("Th")));
    assert!(!is_case_sensitive_consonant(&key("")));
}

#[test]
fn helpers_on_character_vectors() {
    assert_eq!(chars_of("k\u{995}"), vec!['k', '\u{995}']);
    assert!(same_chars(&key("abc"), &key("abc")));
    assert!(!same_chars(&key("abc"), &key("abd")));
    assert!(!same_chars(&key("abc"), &key("ab")));
    let mut out = key("ab");
    append_chars(&mut out, &key("cd"));
    assert_eq!(out, key("abcd"));
    assert_eq!(copy_window(&key("abcde"), 1, 3), key("bcd"));
    assert_eq!(copy_window(&key("abcde"), 5, 0), key(""));
    let candidates = vec![BengaliChar::Vowel('a'), BengaliChar::VowelSign('b'), BengaliChar::VowelSign('c')];
    assert_eq!(find_kind(&candidates, GlyphKind::VowelSign), Some(1));
    assert_eq!(find_kind(&candidates, GlyphKind::Compound), None);
}
