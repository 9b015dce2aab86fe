use obadh_engine::processor::Processor;
use obadh_engine::table::MappingTable;

fn process(input: &str) -> String {
    Processor::new().process_input(input)
}

#[test]
fn sanity_check() {
    assert!(true);
}

#[test]
fn empty_input_gives_empty_output() {
    assert_eq!(process(""), "");
}

#[test]
fn bare_consonant_is_written_as_its_base() {
    assert_eq!(process("k"), "\u{995}");
    assert_eq!(process("kh"), "\u{996}");
}

#[test]
fn vowel_sign_attaches_to_the_waiting_consonant() {
    assert_eq!(process("ka"), "\u{995}\u{9be}");
    assert_eq!(process("ki"), "\u{995}\u{9bf}");
    assert_eq!(process("kOU"), "\u{995}\u{9cc}");
    assert_eq!(process("krri"), "\u{995}\u{9c3}");
}

#[test]
fn vowel_without_consonant_is_independent() {
    assert_eq!(process("a"), "\u{986}");
    assert_eq!(process("o"), "\u{985}");
    assert_eq!(process("rri"), "\u{98b}");
    assert_eq!(process("OI"), "\u{990}");
    assert_eq!(process("ai"), "\u{986}\u{987}");
}

#[test]
fn adjacent_consonants_are_joined_by_hasanta() {
    assert_eq!(process("kk"), "\u{995}\u{9cd}\u{995}");
    assert_eq!(process("bangla"), "\u{9ac}\u{9be}\u{9a8}\u{9cd}\u{997}\u{9cd}\u{9b2}\u{9be}");
}

#[test]
fn declared_cluster_is_written_for_its_pair() {
    let mut table = MappingTable::standard();
    assert!(table.declare_cluster("k", "k", "\u{995}\u{9cd}\u{995}\u{200c}"));
    let mut engine = Processor::with_table(table);
    assert_eq!(engine.process_input("kk"), "\u{995}\u{9cd}\u{995}\u{200c}");
    assert_eq!(engine.process_input("kka"), "\u{995}\u{9cd}\u{995}\u{200c}\u{986}");
    assert_eq!(engine.process_input("kak"), "\u{995}\u{9be}\u{995}");
}

#[test]
fn declared_cluster_is_found_from_the_waiting_key() {
    let mut table = MappingTable::standard();
    assert!(table.declare_cluster("k", "T", "\u{995}\u{9cd}\u{99f}\u{200c}"));
    let mut engine = Processor::with_table(table);
    // "K" is held under "k"; "KT" and its lower-case form are no keys.
    assert_eq!(engine.process_input("KT"), "\u{995}\u{9cd}\u{99f}\u{200c}");
    assert_eq!(engine.process_input("KoT"), "\u{995}\u{99f}");
}

#[test]
fn cluster_declaration_is_refused_where_it_cannot_be_made() {
    let mut table = MappingTable::standard();
    // "kh" is a key already.
    assert!(!table.declare_cluster("k", "h", "x"));
    // "a" is no consonant key.
    assert!(!table.declare_cluster("a", "k", "x"));
    assert!(!table.declare_cluster("k", "a", "x"));
    // "q" is no key at all.
    assert!(!table.declare_cluster("q", "k", "x"));
    let mut engine = Processor::with_table(table);
    assert_eq!(engine.process_input("kh"), "\u{996}");
    assert_eq!(engine.process_input("ak"), "\u{986}\u{995}");
}

#[test]
fn inherent_vowel_after_consonant_breaks_the_syllable() {
    assert_eq!(process("kok"), "\u{995}\u{995}");
    assert_eq!(process("ko"), "\u{995}");
    assert_eq!(process("kook"), "\u{995}\u{995}");
    assert_eq!(process("koa"), "\u{995}\u{9be}");
}

#[test]
fn break_marker_does_not_outlive_its_consonant() {
    assert_eq!(process("koakk"), "\u{995}\u{9be}\u{995}\u{9cd}\u{995}");
    assert_eq!(process("ko kk"), "\u{995} \u{995}\u{9cd}\u{995}");
}

#[test]
fn escapes_give_their_glyph_or_stay_literal() {
    assert_eq!(process("\\$"), "\u{9f3}");
    assert_eq!(process("\\q"), "\\q");
    assert_eq!(process("\\^"), "\u{981}");
    assert_eq!(process("\\`"), "\u{9cd}");
    assert_eq!(process("\\\\"), "\\");
    assert_eq!(process("\\"), "\\");
}

#[test]
fn escape_flushes_the_waiting_consonant() {
    assert_eq!(process("k\\^"), "\u{995}\u{981}");
    assert_eq!(process("k\\q"), "\u{995}\\q");
    assert_eq!(process("k\\a"), "\u{995}\\\u{986}");
}

#[test]
fn escape_is_matched_within_a_line() {
    assert_eq!(process("\\$100"), "\u{9f3}100");
    assert_eq!(process("a\\$ k"), "\u{986}\u{9f3} \u{995}");
}

#[test]
fn case_sensitive_consonants_are_distinct() {
    assert_eq!(process("t"), "\u{9a4}");
    assert_eq!(process("T"), "\u{99f}");
    assert_eq!(process("d"), "\u{9a6}");
    assert_eq!(process("D"), "\u{9a1}");
    assert_eq!(process("R"), "\u{9dc}");
    assert_eq!(process("r"), "\u{9b0}");
}

#[test]
fn other_keys_fold_to_lower_case() {
    assert_eq!(process("K"), "\u{995}");
    assert_eq!(process("KH"), "\u{996}");
    assert_eq!(process("Ka"), "\u{995}\u{9be}");
    // The Kelvin sign has the lower-case form "k".
    assert_eq!(process("\u{212a}"), "\u{995}");
}

#[test]
fn unmapped_characters_pass_through() {
    assert_eq!(process("qwx"), "qwx");
    assert_eq!(process("123"), "123");
    assert_eq!(process("\u{e9}\u{4e2d}"), "\u{e9}\u{4e2d}");
    assert_eq!(process("kq"), "\u{995}q");
}

#[test]
fn boundary_flushes_and_resets() {
    assert_eq!(process("k k"), "\u{995} \u{995}");
    assert_eq!(process("k,a"), "\u{995},\u{986}");
    assert_eq!(process("k\na"), "\u{995}\n\u{986}");
    assert_eq!(process("k\u{3000}k"), "\u{995}\u{3000}\u{995}");
    assert_eq!(process("ami, tumi."), "\u{986}\u{9ae}\u{9bf}, \u{9a4}\u{9c1}\u{9ae}\u{9bf}.");
}

#[test]
fn input_ending_in_consonant_ends_with_its_base() {
    assert_eq!(process("amar"), "\u{986}\u{9ae}\u{9be}\u{9b0}");
    assert!(process("akash").ends_with('\u{9b6}'));
    assert!(process("12 kh").ends_with('\u{996}'));
}

#[test]
fn each_call_is_independent() {
    let mut engine = Processor::new();
    assert_eq!(engine.process_input("ko"), "\u{995}");
    assert_eq!(engine.process_input("kk"), "\u{995}\u{9cd}\u{995}");
    assert_eq!(engine.process_input("k"), "\u{995}");
    assert_eq!(engine.process_input("a"), "\u{986}");
}

#[test]
fn boundary_splits_the_line() {
    let whole = process("amar sOnar, bangla");
    let parts = format!("{} {},{}", process("amar"), process("sOnar"), process(" bangla"));
    assert_eq!(whole, parts);
    assert_eq!(process("kk kk"), format!("{} {}", process("kk"), process("kk")));
}

#[test]
fn context_is_cleared_after_each_call() {
    let mut engine = Processor::new();
    assert!(engine.current_context().previous.is_none());
    assert!(!engine.current_context().prevent_conjunct);
    assert_eq!(engine.process_input("ko"), "\u{995}");
    assert!(engine.current_context().previous.is_none());
    assert!(!engine.current_context().prevent_conjunct);
    assert!(engine.mappings().get(&vec!['k', 'h']).is_some());
}

#[test]
fn unmapped_lines_are_recognised() {
    let mut engine = Processor::new();
    for line in ["", "qwx", "123", "\u{e9}\u{4e2d}", "\u{995}\u{9be}"] {
        assert!(engine.is_unmapped(line), "{}", line);
        assert_eq!(engine.process_input(line), line);
    }
    // A key as written, a key by folding, a key inside the line, punctuation.
    assert!(!engine.is_unmapped("k"));
    assert!(!engine.is_unmapped("K"));
    assert!(!engine.is_unmapped("\u{212a}"));
    assert!(!engine.is_unmapped("qwxrriq"));
    assert!(!engine.is_unmapped("q w"));
    assert!(!engine.is_unmapped("q\\"));
    assert!(!engine.is_unmapped("q."));
}

#[test]
fn scan_comes_to_token_starts_and_the_end() {
    let engine = Processor::new();
    assert!(engine.comes_to("", 0));
    assert!(!engine.comes_to("", 1));
    assert!(engine.comes_to("k k", 0));
    assert!(engine.comes_to("k k", 1));
    assert!(engine.comes_to("k k", 2));
    assert!(engine.comes_to("k k", 3));
    assert!(!engine.comes_to("k k", 4));
    // "kh" and "rri" are one token each.
    assert!(!engine.comes_to("kh", 1));
    assert!(engine.comes_to("kh", 2));
    assert!(!engine.comes_to("krri", 2));
    assert!(!engine.comes_to("krri", 3));
    assert!(engine.comes_to("krri", 4));
    // The sign of an escape sequence is no boundary of its own.
    assert!(!engine.comes_to("\\$ ", 1));
    assert!(engine.comes_to("\\$ ", 2));
    assert!(engine.comes_to("\\q", 1));
}

#[test]
fn bare_consonant_at_end_is_found() {
    let mut engine = Processor::new();
    assert_eq!(engine.bare_consonant_at_end("k"), Some('\u{995}'));
    assert_eq!(engine.bare_consonant_at_end("amar"), Some('\u{9b0}'));
    assert_eq!(engine.bare_consonant_at_end("akash"), Some('\u{9b6}'));
    assert_eq!(engine.bare_consonant_at_end("kk"), Some('\u{995}'));
    assert_eq!(engine.bare_consonant_at_end("koT"), Some('\u{99f}'));
    assert_eq!(engine.bare_consonant_at_end("K"), Some('\u{995}'));
    assert_eq!(engine.bare_consonant_at_end(""), None);
    assert_eq!(engine.bare_consonant_at_end("ka"), None);
    assert_eq!(engine.bare_consonant_at_end("ko"), None);
    assert_eq!(engine.bare_consonant_at_end("k "), None);
    assert_eq!(engine.bare_consonant_at_end("kq"), None);
    assert_eq!(engine.bare_consonant_at_end("k\\$"), None);
    for line in ["k", "amar", "akash", "kk", "koT", "K", "12 kh"] {
        let base = engine.bare_consonant_at_end(line).unwrap();
        assert!(engine.process_input(line).ends_with(base));
    }
    assert!(engine.current_context().previous.is_none());
    assert!(!engine.current_context().prevent_conjunct);
}

#[test]
fn consonant_that_joins_a_cluster_is_not_bare() {
    let mut table = MappingTable::standard();
    assert!(table.declare_cluster("k", "T", "\u{995}\u{9cd}\u{99f}\u{200c}"));
    let mut engine = Processor::with_table(table);
    assert_eq!(engine.bare_consonant_at_end("KT"), None);
    assert_eq!(engine.bare_consonant_at_end("KoT"), Some('\u{99f}'));
    assert_eq!(engine.bare_consonant_at_end("kT"), None);
}

#[test]
fn boundary_splits_where_the_scan_comes_to_it() {
    let mut engine = Processor::new();
    let line = "ami, tumi k\\$ kh";
    let chars: Vec<char> = line.chars().collect();
    for pos in 0..chars.len() {
        let c = chars[pos];
        if (c.is_ascii_punctuation() || c.is_whitespace()) && c != '\\' && engine.comes_to(line, pos) {
            let head: String = chars[..pos].iter().collect();
            let tail: String = chars[pos + 1..].iter().collect();
            let split = format!("{}{}{}", engine.process_input(&head), c, engine.process_input(&tail));
            assert_eq!(engine.process_input(line), split);
        }
    }
}

#[test]
fn context_clone_keeps_the_context() {
    let engine = Processor::new();
    let copy = engine.current_context().clone();
    assert!(copy.previous.is_none());
    assert!(!copy.prevent_conjunct);
}
