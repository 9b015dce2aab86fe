//! The romanization scheme: the keys of the standard table and their glyphs.

use vstd::prelude::*;
use crate::processor::{append_chars, find_kind};
use crate::rules::first_of_kind;
use crate::table::{MappingTable, MAX_KEY_LEN};
use crate::text::chars_of;
use crate::types::{glyphs_of, BengaliChar, Glyph, GlyphKind};

verus! {

/// The vowels: a key gives the independent vowel and, but for the inherent
/// vowel `o`, the sign that is written on a consonant.
pub open spec fn vowel_mappings() -> Map<Seq<char>, Seq<Glyph>> {
    Map::<Seq<char>, Seq<Glyph>>::empty().insert(seq!['o'], seq![Glyph::Vowel('অ')]).insert(
        seq!['a'],
        seq![Glyph::Vowel('আ'), Glyph::VowelSign('া')],
    ).insert(seq!['i'], seq![Glyph::Vowel('ই'), Glyph::VowelSign('ি')]).insert(
        seq!['I'],
        seq![Glyph::Vowel('ঈ'), Glyph::VowelSign('ী')],
    ).insert(seq!['u'], seq![Glyph::Vowel('উ'), Glyph::VowelSign('ু')]).insert(
        seq!['U'],
        seq![Glyph::Vowel('ঊ'), Glyph::VowelSign('ূ')],
    ).insert(seq!['r', 'r', 'i'], seq![Glyph::Vowel('ঋ'), Glyph::VowelSign('ৃ')]).insert(
        seq!['e'],
        seq![Glyph::Vowel('এ'), Glyph::VowelSign('ে')],
    ).insert(seq!['O', 'I'], seq![Glyph::Vowel('ঐ'), Glyph::VowelSign('ৈ')]).insert(
        seq!['O'],
        seq![Glyph::Vowel('ও'), Glyph::VowelSign('ো')],
    ).insert(seq!['O', 'U'], seq![Glyph::Vowel('ঔ'), Glyph::VowelSign('ৌ')])
}

/// The consonants. Where the scheme overloads case, both cases are keys.
pub open spec fn consonant_mappings() -> Map<Seq<char>, Seq<Glyph>> {
    Map::<Seq<char>, Seq<Glyph>>::empty().insert(seq!['k'], seq![Glyph::Consonant('ক')]).insert(
        seq!['k', 'h'],
        seq![Glyph::Consonant('খ')],
    ).insert(seq!['g'], seq![Glyph::Consonant('গ')]).insert(
        seq!['g', 'h'],
        seq![Glyph::Consonant('ঘ')],
    ).insert(seq!['N', 'g'], seq![Glyph::Consonant('ঙ')]).insert(
        seq!['c'],
        seq![Glyph::Consonant('চ')],
    ).insert(seq!['c', 'h'], seq![Glyph::Consonant('ছ')]).insert(
        seq!['j'],
        seq![Glyph::Consonant('জ')],
    ).insert(seq!['j', 'h'], seq![Glyph::Consonant('ঝ')]).insert(
        seq!['N', 'G'],
        seq![Glyph::Consonant('ঞ')],
    ).insert(seq!['T'], seq![Glyph::Consonant('ট')]).insert(
        seq!['T', 'h'],
        seq![Glyph::Consonant('ঠ')],
    ).insert(seq!['D'], seq![Glyph::Consonant('ড')]).insert(
        seq!['D', 'h'],
        seq![Glyph::Consonant('ঢ')],
    ).insert(seq!['N'], seq![Glyph::Consonant('ণ')]).insert(
        seq!['t'],
        seq![Glyph::Consonant('ত')],
    ).insert(seq!['t', 'h'], seq![Glyph::Consonant('থ')]).insert(
        seq!['d'],
        seq![Glyph::Consonant('দ')],
    ).insert(seq!['d', 'h'], seq![Glyph::Consonant('ধ')]).insert(
        seq!['n'],
        seq![Glyph::Consonant('ন')],
    ).insert(seq!['p'], seq![Glyph::Consonant('প')]).insert(
        seq!['p', 'h'],
        seq![Glyph::Consonant('ফ')],
    ).insert(seq!['f'], seq![Glyph::Consonant('ফ')]).insert(
        seq!['b'],
        seq![Glyph::Consonant('ব')],
    ).insert(seq!['b', 'h'], seq![Glyph::Consonant('ভ')]).insert(
        seq!['v'],
        seq![Glyph::Consonant('ভ')],
    ).insert(seq!['m'], seq![Glyph::Consonant('ম')]).insert(
        seq!['z'],
        seq![Glyph::Consonant('য')],
    ).insert(seq!['r'], seq![Glyph::Consonant('র')]).insert(
        seq!['l'],
        seq![Glyph::Consonant('ল')],
    ).insert(seq!['s', 'h'], seq![Glyph::Consonant('শ')]).insert(
        seq!['S'],
        seq![Glyph::Consonant('শ')],
    ).insert(seq!['S', 'h'], seq![Glyph::Consonant('ষ')]).insert(
        seq!['s'],
        seq![Glyph::Consonant('স')],
    ).insert(seq!['h'], seq![Glyph::Consonant('হ')]).insert(
        seq!['R'],
        seq![Glyph::Consonant('\u{9dc}')],
    ).insert(seq!['R', 'h'], seq![Glyph::Consonant('\u{9dd}')]).insert(
        seq!['y'],
        seq![Glyph::Consonant('\u{9df}')],
    )
}

/// The standard table: the vowels, the consonants, and four escape sequences:
/// the chandrabindu and the hasanta, which are specials, and the backslash and
/// the taka sign, which are symbols.
pub open spec fn default_mappings() -> Map<Seq<char>, Seq<Glyph>> {
    vowel_mappings().union_prefer_right(consonant_mappings()).insert(
        seq!['\\', '^'],
        seq![Glyph::Special('ঁ')],
    ).insert(seq!['\\', '`'], seq![Glyph::Special('্')]).insert(
        seq!['\\', '\\'],
        seq![Glyph::Symbol('\\')],
    ).insert(seq!['\\', '$'], seq![Glyph::Symbol('৳')])
}

/// Whether the table holds `key` with a consonant among its candidates.
pub open spec fn is_consonant_key(table: Map<Seq<char>, Seq<Glyph>>, key: Seq<char>) -> bool {
    table.contains_key(key) && first_of_kind(table[key], GlyphKind::Consonant) is Some
}

/// Whether a cluster can be declared for `first` followed by `second`: both
/// are consonant keys, and the two together are no longer than a key may be
/// and are not a key already.
pub open spec fn can_declare_cluster(
    table: Map<Seq<char>, Seq<Glyph>>,
    first: Seq<char>,
    second: Seq<char>,
) -> bool {
    &&& is_consonant_key(table, first)
    &&& is_consonant_key(table, second)
    &&& first.len() + second.len() <= MAX_KEY_LEN
    &&& !table.contains_key(first + second)
}

fn key1(a: char) -> (k: Vec<char>)
    ensures
        k@ == seq![a],
{
    let mut k: Vec<char> = Vec::new();
    k.push(a);
    assert(k@ =~= seq![a]);
    k
}

fn key2(a: char, b: char) -> (k: Vec<char>)
    ensures
        k@ == seq![a, b],
{
    let mut k: Vec<char> = Vec::new();
    k.push(a);
    k.push(b);
    assert(k@ =~= seq![a, b]);
    k
}

fn key3(a: char, b: char, c: char) -> (k: Vec<char>)
    ensures
        k@ == seq![a, b, c],
{
    let mut k: Vec<char> = Vec::new();
    k.push(a);
    k.push(b);
    k.push(c);
    assert(k@ =~= seq![a, b, c]);
    k
}

fn only(g: BengaliChar) -> (v: Vec<BengaliChar>)
    ensures
        glyphs_of(v@) == seq![g@],
{
    let mut v: Vec<BengaliChar> = Vec::new();
    v.push(g);
    assert(glyphs_of(v@) =~= seq![g@]);
    v
}

fn vowel_pair(vowel: char, sign: char) -> (v: Vec<BengaliChar>)
    ensures
        glyphs_of(v@) == seq![Glyph::Vowel(vowel), Glyph::VowelSign(sign)],
{
    let mut v: Vec<BengaliChar> = Vec::new();
    v.push(BengaliChar::Vowel(vowel));
    v.push(BengaliChar::VowelSign(sign));
    assert(glyphs_of(v@) =~= seq![Glyph::Vowel(vowel), Glyph::VowelSign(sign)]);
    v
}

fn consonant(base: char) -> (v: Vec<BengaliChar>)
    ensures
        glyphs_of(v@) == seq![Glyph::Consonant(base)],
{
    only(BengaliChar::Consonant(base))
}

impl MappingTable {
    fn has_consonant(&self, key: &Vec<char>) -> (r: bool)
        requires
            self.wf(),
        ensures
            r == is_consonant_key(self@, key@),
            r ==> 1 <= key@.len() <= MAX_KEY_LEN && key@[0] != crate::chars::ESCAPE,
    {
        match self.get(key) {
            Some(candidates) => {
                proof {
                    self.lemma_table_ok();
                }
                match find_kind(candidates, GlyphKind::Consonant) {
                    Some(i) => {
                        proof {
                            let gs = self@[key@];
                            assert(self@.contains_key(key@));
                            assert(crate::table::entry_ok(key@, gs));
                            assert(gs[i as int] == candidates@[i as int]@);
                            assert(!crate::table::is_escape_glyph(gs[i as int]));
                        }
                        true
                    },
                    None => false,
                }
            },
            None => false,
        }
    }

    /// Declares `cluster` as what the consonant keys `first` and `second`
    /// give when they are written without a separator, and says whether it
    /// did: where the declaration cannot be made the table stays as it is.
    pub fn declare_cluster(&mut self, first: &str, second: &str, cluster: &str) -> (declared:
        bool)
        requires
            old(self).wf(),
        ensures
            final(self).wf(),
            declared == can_declare_cluster(old(self)@, first@, second@),
            declared ==> final(self)@ == old(self)@.insert(
                first@ + second@,
                seq![Glyph::Compound(cluster@)],
            ),
            !declared ==> final(self)@ == old(self)@,
    {
        let first = chars_of(first);
        let second = chars_of(second);
        if !self.has_consonant(&first) || !self.has_consonant(&second) {
            return false;
        }
        if first.len() + second.len() > MAX_KEY_LEN {
            return false;
        }
        let mut key: Vec<char> = Vec::new();
        append_chars(&mut key, &first);
        append_chars(&mut key, &second);
        proof {
            assert(key@ =~= first@ + second@);
        }
        if self.get(&key).is_some() {
            return false;
        }
        let candidates = only(BengaliChar::Compound(chars_of(cluster)));
        self.insert(key, candidates);
        true
    }

    /// The standard table of the scheme.
    pub fn standard() -> (t: Self)
        ensures
            t.wf(),
            t@ == default_mappings(),
    {
        let mut t = MappingTable::empty();
        t.insert(key1('o'), only(BengaliChar::Vowel('অ')));
        t.insert(key1('a'), vowel_pair('আ', 'া'));
        t.insert(key1('i'), vowel_pair('ই', 'ি'));
        t.insert(key1('I'), vowel_pair('ঈ', 'ী'));
        t.insert(key1('u'), vowel_pair('উ', 'ু'));
        t.insert(key1('U'), vowel_pair('ঊ', 'ূ'));
        t.insert(key3('r', 'r', 'i'), vowel_pair('ঋ', 'ৃ'));
        t.insert(key1('e'), vowel_pair('এ', 'ে'));
        t.insert(key2('O', 'I'), vowel_pair('ঐ', 'ৈ'));
        t.insert(key1('O'), vowel_pair('ও', 'ো'));
        t.insert(key2('O', 'U'), vowel_pair('ঔ', 'ৌ'));
        t.extend(Self::create_consonant_mappings());
        t.insert(key2('\\', '^'), only(BengaliChar::Special('ঁ')));
        t.insert(key2('\\', '`'), only(BengaliChar::Special('্')));
        t.insert(key2('\\', '\\'), only(BengaliChar::Symbol('\\')));
        t.insert(key2('\\', '$'), only(BengaliChar::Symbol('৳')));
        t
    }

    /// The consonants of the scheme, as a table of their own.
    fn create_consonant_mappings() -> (t: Self)
        ensures
            t.wf(),
            t@ == consonant_mappings(),
    {
        let mut t = MappingTable::empty();
        t.insert(key1('k'), consonant('ক'));
        t.insert(key2('k', 'h'), consonant('খ'));
        t.insert(key1('g'), consonant('গ'));
        t.insert(key2('g', 'h'), consonant('ঘ'));
        t.insert(key2('N', 'g'), consonant('ঙ'));
        t.insert(key1('c'), consonant('চ'));
        t.insert(key2('c', 'h'), consonant('ছ'));
        t.insert(key1('j'), consonant('জ'));
        t.insert(key2('j', 'h'), consonant('ঝ'));
        t.insert(key2('N', 'G'), consonant('ঞ'));
        t.insert(key1('T'), consonant('ট'));
        t.insert(key2('T', 'h'), consonant('ঠ'));
        t.insert(key1('D'), consonant('ড'));
        t.insert(key2('D', 'h'), consonant('ঢ'));
        t.insert(key1('N'), consonant('ণ'));
        t.insert(key1('t'), consonant('ত'));
        t.insert(key2('t', 'h'), consonant('থ'));
        t.insert(key1('d'), consonant('দ'));
        t.insert(key2('d', 'h'), consonant('ধ'));
        t.insert(key1('n'), consonant('ন'));
        t.insert(key1('p'), consonant('প'));
        t.insert(key2('p', 'h'), consonant('ফ'));
        t.insert(key1('f'), consonant('ফ'));
        t.insert(key1('b'), consonant('ব'));
        t.insert(key2('b', 'h'), consonant('ভ'));
        t.insert(key1('v'), consonant('ভ'));
        t.insert(key1('m'), consonant('ম'));
        t.insert(key1('z'), consonant('য'));
        t.insert(key1('r'), consonant('র'));
        t.insert(key1('l'), consonant('ল'));
        t.insert(key2('s', 'h'), consonant('শ'));
        t.insert(key1('S'), consonant('শ'));
        t.insert(key2('S', 'h'), consonant('ষ'));
        t.insert(key1('s'), consonant('স'));
        t.insert(key1('h'), consonant('হ'));
        t.insert(key1('R'), consonant('\u{9dc}'));
        t.insert(key2('R', 'h'), consonant('\u{9dd}'));
        t.insert(key1('y'), consonant('\u{9df}'));
        t
    }
}

} // verus!
