//! The transliteration, stated as a mathematical function of the table and the
//! input: how a key is resolved, which candidate is selected, how the selected
//! glyph combines with a waiting consonant, and how a line is scanned.

use vstd::prelude::*;
use crate::chars::{spec_independent_vowel, spec_is_boundary, ESCAPE};
use crate::table::MAX_KEY_LEN;
use crate::text::lowercase_of;
use crate::types::{glyph_char, kind_of, Glyph, GlyphKind};

verus! {

/// The sign that joins two consonants where no cluster is declared for them.
pub const HASANTA: char = '\u{9cd}';

/// The key of the inherent vowel. After a waiting consonant it writes nothing
/// and keeps that consonant from joining the next one.
pub open spec fn inherent_vowel_key() -> Seq<char> {
    seq!['o']
}

/// The single-letter consonant keys of which both cases are declared: for
/// these the case of the input is never folded.
pub open spec fn spec_is_case_sensitive_consonant(w: Seq<char>) -> bool {
    w.len() == 1 && (w[0] == 't' || w[0] == 'T' || w[0] == 'd' || w[0] == 'D' || w[0] == 'n'
        || w[0] == 'N' || w[0] == 's' || w[0] == 'S' || w[0] == 'r' || w[0] == 'R')
}

/// The key under which the table holds the window `w`, where `folded` is the
/// lower-case form of `w`: `w` itself, else `folded` unless `w` is a
/// case-sensitive consonant.
pub open spec fn resolve_with(
    table: Map<Seq<char>, Seq<Glyph>>,
    w: Seq<char>,
    folded: Seq<char>,
) -> Option<Seq<char>> {
    if table.contains_key(w) {
        Some(w)
    } else if table.contains_key(folded) && !spec_is_case_sensitive_consonant(w) {
        Some(folded)
    } else {
        None
    }
}

/// The key under which the table holds the window `w`, if any.
pub open spec fn resolved_key(table: Map<Seq<char>, Seq<Glyph>>, w: Seq<char>) -> Option<
    Seq<char>,
> {
    resolve_with(table, w, lowercase_of(w))
}

/// The first candidate of the given kind.
pub open spec fn first_of_kind(cs: Seq<Glyph>, kind: GlyphKind) -> Option<Glyph>
    decreases cs.len(),
{
    if cs.len() == 0 {
        None
    } else if kind_of(cs[0]) == kind {
        Some(cs[0])
    } else {
        first_of_kind(cs.drop_first(), kind)
    }
}

/// The candidate that is selected: a vowel sign while a consonant is waiting;
/// failing that an independent vowel; failing that the first candidate.
pub open spec fn select(waiting: bool, cs: Seq<Glyph>) -> Glyph {
    if waiting && first_of_kind(cs, GlyphKind::VowelSign) is Some {
        first_of_kind(cs, GlyphKind::VowelSign)->0
    } else if first_of_kind(cs, GlyphKind::Vowel) is Some {
        first_of_kind(cs, GlyphKind::Vowel)->0
    } else {
        cs[0]
    }
}

/// A consonant that has been matched and not yet written.
pub struct Pending {
    /// The key under which the table holds it.
    pub key: Seq<char>,
    /// Its base character.
    pub base: char,
}

/// The state of a scan.
pub struct ScanState {
    /// The number of input characters consumed.
    pub pos: nat,
    /// The waiting consonant.
    pub pending: Option<Pending>,
    /// Whether the next consonant is kept from joining the waiting one.
    pub prevent_conjunct: bool,
    /// What has been written.
    pub output: Seq<char>,
}

/// The state in which a scan starts.
pub open spec fn start() -> ScanState {
    ScanState { pos: 0, pending: None, prevent_conjunct: false, output: Seq::empty() }
}

/// The output once a waiting consonant is written with its inherent vowel,
/// that is as its base character alone.
pub open spec fn flushed(output: Seq<char>, pending: Option<Pending>) -> Seq<char> {
    match pending {
        Some(p) => output.push(p.base),
        None => output,
    }
}

/// The state in which nothing waits and `output` has been written, at the
/// position of `st`.
pub open spec fn settled(st: ScanState, output: Seq<char>) -> ScanState {
    ScanState { pos: st.pos, pending: None, prevent_conjunct: false, output }
}

/// The cluster declared for two consonant keys written without a separator.
pub open spec fn cluster_of(
    table: Map<Seq<char>, Seq<Glyph>>,
    first: Seq<char>,
    second: Seq<char>,
) -> Option<Seq<char>> {
    if table.contains_key(first + second) {
        match first_of_kind(table[first + second], GlyphKind::Compound) {
            Some(Glyph::Compound(cluster)) => Some(cluster),
            _ => None,
        }
    } else {
        None
    }
}

/// What a vowel sign writes where no consonant is waiting: its independent
/// vowel if it has one, else the sign itself.
pub open spec fn unattached_sign(sign: char) -> char {
    match spec_independent_vowel(sign) {
        Some(v) => v,
        None => sign,
    }
}

/// The state after the glyph `g`, matched under `key`, has been combined with
/// what was waiting, at the position of `st`.
///
/// A consonant becomes the one that waits. One that waited before it is
/// written first: alone where the break marker stood between the two; else as
/// the cluster declared for the two keys, which takes the place of both, so
/// that nothing waits; else followed by the hasanta. A vowel sign is written
/// on the consonant that waits, or by itself as an independent vowel. Every
/// other glyph is written after what waited.
pub open spec fn combine(
    table: Map<Seq<char>, Seq<Glyph>>,
    st: ScanState,
    key: Seq<char>,
    g: Glyph,
) -> ScanState {
    match g {
        Glyph::Consonant(c) => {
            let next = Some(Pending { key, base: c });
            let waiting = ScanState {
                pos: st.pos,
                pending: next,
                prevent_conjunct: false,
                output: st.output,
            };
            match st.pending {
                None => waiting,
                Some(p) => if st.prevent_conjunct {
                    ScanState { output: st.output.push(p.base), ..waiting }
                } else {
                    match cluster_of(table, p.key, key) {
                        Some(cluster) => settled(st, st.output + cluster),
                        None => ScanState {
                            output: st.output.push(p.base).push(HASANTA),
                            ..waiting
                        },
                    }
                },
            }
        },
        Glyph::VowelSign(s) => match st.pending {
            Some(p) => settled(st, st.output.push(p.base).push(s)),
            None => settled(st, st.output.push(unattached_sign(s))),
        },
        Glyph::Vowel(v) => settled(st, flushed(st.output, st.pending).push(v)),
        Glyph::Special(ch) => settled(st, flushed(st.output, st.pending).push(ch)),
        Glyph::Symbol(ch) => settled(st, flushed(st.output, st.pending).push(ch)),
        Glyph::Compound(cluster) => settled(st, flushed(st.output, st.pending) + cluster),
    }
}

/// The window of `len` characters at `pos`.
pub open spec fn window(input: Seq<char>, pos: nat, len: nat) -> Seq<char> {
    input.subrange(pos as int, (pos + len) as int)
}

/// The length of the longest window at `pos`, of at most `len` characters,
/// that the table resolves; 0 where none does.
pub open spec fn match_within(
    table: Map<Seq<char>, Seq<Glyph>>,
    input: Seq<char>,
    pos: nat,
    len: nat,
) -> nat
    decreases len,
{
    if len == 0 {
        0
    } else if pos + len <= input.len() && resolved_key(table, window(input, pos, len)) is Some {
        len
    } else {
        match_within(table, input, pos, (len - 1) as nat)
    }
}

/// The length of the longest window at `pos`, of at most `len` characters,
/// that is a key of the table as it stands; 0 where none is.
pub open spec fn escape_within(
    table: Map<Seq<char>, Seq<Glyph>>,
    input: Seq<char>,
    pos: nat,
    len: nat,
) -> nat
    decreases len,
{
    if len == 0 {
        0
    } else if pos + len <= input.len() && table.contains_key(window(input, pos, len)) {
        len
    } else {
        escape_within(table, input, pos, (len - 1) as nat)
    }
}

/// The character of each glyph, in order.
pub open spec fn glyph_chars(cs: Seq<Glyph>) -> Seq<char> {
    Seq::new(cs.len(), |i: int| glyph_char(cs[i]))
}

/// The length of the window that is matched at `pos`, which is below
/// `input.len()`; 0 where nothing is matched there.
pub open spec fn matched_len(
    table: Map<Seq<char>, Seq<Glyph>>,
    input: Seq<char>,
    pos: nat,
) -> nat {
    let c = input[pos as int];
    if spec_is_boundary(c) {
        0
    } else if c == ESCAPE {
        escape_within(table, input, pos, MAX_KEY_LEN as nat)
    } else {
        match_within(table, input, pos, MAX_KEY_LEN as nat)
    }
}

/// The number of characters that the token at `pos` consumes: those of the
/// window that is matched there, or one where nothing is matched.
pub open spec fn token_len(table: Map<Seq<char>, Seq<Glyph>>, input: Seq<char>, pos: nat) -> nat {
    let len = matched_len(table, input, pos);
    if len == 0 {
        1
    } else {
        len
    }
}

/// The state after the token at `st.pos`, which is below `input.len()`.
///
/// A boundary writes what was waiting and then itself. The escape lead writes
/// what was waiting and then the glyphs of the longest escape sequence that
/// starts there, or itself where there is none. Elsewhere the longest window
/// that resolves is combined; where none resolves, the character is written
/// after what was waiting.
pub open spec fn step(
    table: Map<Seq<char>, Seq<Glyph>>,
    input: Seq<char>,
    st: ScanState,
) -> ScanState {
    let next = outcome(table, input, st, matched_len(table, input, st.pos));
    ScanState { pos: st.pos + token_len(table, input, st.pos), ..next }
}

/// What the token at `st.pos` does to the state, but for the position, where
/// `len` is the length of the window that is matched there.
pub open spec fn outcome(
    table: Map<Seq<char>, Seq<Glyph>>,
    input: Seq<char>,
    st: ScanState,
    len: nat,
) -> ScanState {
    let c = input[st.pos as int];
    let w = window(input, st.pos, len);
    let written = flushed(st.output, st.pending);
    if spec_is_boundary(c) {
        settled(st, written.push(c))
    } else if c == ESCAPE {
        if len == 0 {
            settled(st, written.push(ESCAPE))
        } else {
            settled(st, written + glyph_chars(table[w]))
        }
    } else if len == 0 {
        settled(st, written.push(c))
    } else if w == inherent_vowel_key() && st.pending is Some {
        ScanState { prevent_conjunct: true, ..st }
    } else {
        let key = resolved_key(table, w)->0;
        combine(table, st, key, select(st.pending is Some, table[key]))
    }
}

/// The number of input characters that lie at or after `pos`.
pub open spec fn remaining(input: Seq<char>, pos: nat) -> nat {
    if pos >= input.len() {
        0
    } else {
        (input.len() - pos) as nat
    }
}

/// The state at the end of the input, reached from `st` token by token.
pub open spec fn scan(
    table: Map<Seq<char>, Seq<Glyph>>,
    input: Seq<char>,
    st: ScanState,
) -> ScanState
    decreases remaining(input, st.pos),
{
    if st.pos >= input.len() {
        st
    } else {
        scan(table, input, step(table, input, st))
    }
}

/// The state after the first `n` tokens of the input, or at its end where it
/// has fewer.
pub open spec fn after_tokens(
    table: Map<Seq<char>, Seq<Glyph>>,
    input: Seq<char>,
    n: nat,
) -> ScanState
    decreases n,
{
    if n == 0 {
        start()
    } else {
        let st = after_tokens(table, input, (n - 1) as nat);
        if st.pos >= input.len() {
            st
        } else {
            step(table, input, st)
        }
    }
}

/// Whether the scan of the input from the start passes through `st`.
pub open spec fn reached(table: Map<Seq<char>, Seq<Glyph>>, input: Seq<char>, st: ScanState) -> bool {
    exists|n: nat| after_tokens(table, input, n) == st
}

/// Whether the scan of the input from the start comes to the position `pos`:
/// a token starts there, or the input ends there.
pub open spec fn comes_to(table: Map<Seq<char>, Seq<Glyph>>, input: Seq<char>, pos: nat) -> bool {
    exists|st: ScanState| reached(table, input, st) && st.pos == pos
}

/// The transliteration of `input`: the scan from the start, and what waits at
/// the end written with its inherent vowel.
pub open spec fn transliterate(table: Map<Seq<char>, Seq<Glyph>>, input: Seq<char>) -> Seq<
    char,
> {
    let end = scan(table, input, start());
    flushed(end.output, end.pending)
}

} // verus!
