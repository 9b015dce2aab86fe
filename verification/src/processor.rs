//! The engine: the table, the rolling context, and the scan of a line.

use vstd::prelude::*;
use crate::chars::{
    is_boundary, is_punctuation, spec_is_punctuation, vowel_sign_to_independent_vowel, ESCAPE,
};
use crate::laws::{
    ends_in_bare_consonant, law_flush_at_end, law_longest_match, law_passthrough,
    lemma_after_tokens_reached,
    lemma_bare_consonant_is_last, lemma_last_token_unique, lemma_passes_over,
    rest_is_bare_consonant,
};
use crate::rules::{
    after_tokens, cluster_of, combine, reached, escape_within, first_of_kind, flushed, glyph_chars, inherent_vowel_key,
    match_within, resolve_with, resolved_key, scan, select, spec_is_case_sensitive_consonant,
    start, step, transliterate, window, Pending, ScanState, HASANTA,
};
use crate::table::{MappingTable, MAX_KEY_LEN};
use crate::text::{chars_of, string_from_chars, to_lowercase};
use crate::types::{
    cleared_context, glyphs_of, kind_of, BengaliChar, ContextView, Glyph, GlyphKind,
    ProcessingContext,
};

verus! {

/// A consonant that has been matched and not yet written.
struct PendingConsonant {
    /// The key under which the table holds it.
    key: Vec<char>,
    /// Its base character.
    base: char,
}

impl View for PendingConsonant {
    type V = Pending;

    closed spec fn view(&self) -> Pending {
        Pending { key: self.key@, base: self.base }
    }
}

/// The view of what waits, if anything does.
spec fn pending_view(p: Option<PendingConsonant>) -> Option<Pending> {
    match p {
        Some(c) => Some(c@),
        None => None,
    }
}

/// Whether `s` is one of the single-letter consonant keys of which both cases
/// are declared.
pub fn is_case_sensitive_consonant(s: &Vec<char>) -> (r: bool)
    ensures
        r == spec_is_case_sensitive_consonant(s@),
{
    if s.len() != 1 {
        return false;
    }
    let c = s[0];
    c == 't' || c == 'T' || c == 'd' || c == 'D' || c == 'n' || c == 'N' || c == 's' || c == 'S'
        || c == 'r' || c == 'R'
}

/// Appends the characters of `cs` to `out`.
pub fn append_chars(out: &mut Vec<char>, cs: &Vec<char>)
    ensures
        final(out)@ == old(out)@ + cs@,
{
    let mut i: usize = 0;
    while i < cs.len()
        invariant
            i <= cs.len(),
            out@ == old(out)@ + cs@.take(i as int),
        decreases cs.len() - i,
    {
        out.push(cs[i]);
        proof {
            assert(cs@.take(i + 1) =~= cs@.take(i as int).push(cs@[i as int]));
            assert(out@ =~= old(out)@ + cs@.take(i + 1));
        }
        i += 1;
    }
    proof {
        assert(cs@.take(cs.len() as int) =~= cs@);
    }
}

/// The window of `len` characters at `start`, as a vector of its own.
pub fn copy_window(chars: &Vec<char>, start: usize, len: usize) -> (w: Vec<char>)
    requires
        start + len <= chars.len(),
    ensures
        w@ == window(chars@, start as nat, len as nat),
{
    let mut w: Vec<char> = Vec::new();
    let mut i: usize = 0;
    while i < len
        invariant
            i <= len,
            start + len <= chars.len(),
            w@ == chars@.subrange(start as int, start + i),
        decreases len - i,
    {
        w.push(chars[start + i]);
        proof {
            assert(w@ =~= chars@.subrange(start as int, start + i + 1));
        }
        i += 1;
    }
    w
}

/// The place of the first candidate of the given kind.
pub fn find_kind(candidates: &Vec<BengaliChar>, kind: GlyphKind) -> (r: Option<usize>)
    ensures
        match r {
            Some(i) => i < candidates.len() && kind_of(candidates@[i as int]@) == kind
                && first_of_kind(glyphs_of(candidates@), kind) == Some(candidates@[i as int]@),
            None => first_of_kind(glyphs_of(candidates@), kind) is None,
        },
{
    let ghost gs = glyphs_of(candidates@);
    let mut i: usize = 0;
    proof {
        assert(gs.skip(0) =~= gs);
    }
    while i < candidates.len()
        invariant
            i <= candidates.len(),
            gs == glyphs_of(candidates@),
            first_of_kind(gs, kind) == first_of_kind(gs.skip(i as int), kind),
        decreases candidates.len() - i,
    {
        proof {
            assert(gs.skip(i as int)[0] == candidates@[i as int]@);
            assert(gs.skip(i as int).drop_first() =~= gs.skip(i + 1));
        }
        if candidates[i].kind() == kind {
            return Some(i);
        }
        i += 1;
    }
    None
}

impl MappingTable {
    /// The key under which the table holds `window`, where `folded` is the
    /// lower-case form of `window`.
    pub fn resolve(&self, window: Vec<char>, folded: Vec<char>) -> (r: Option<Vec<char>>)
        requires
            self.wf(),
        ensures
            match r {
                Some(key) => resolve_with(self@, window@, folded@) == Some(key@),
                None => resolve_with(self@, window@, folded@) is None,
            },
    {
        if self.get(&window).is_some() {
            Some(window)
        } else if self.get(&folded).is_some() && !is_case_sensitive_consonant(&window) {
            Some(folded)
        } else {
            None
        }
    }
}

/// The transliteration engine: a mapping table and the context that rolls
/// along a line. Each line is transliterated by itself: the context is
/// cleared when a call begins and again when it ends, and nothing waits
/// from one call to the next.
pub struct Processor {
    mappings: MappingTable,
    context: ProcessingContext,
}

impl Processor {
    /// The table of the engine, as a map.
    pub closed spec fn table(&self) -> Map<Seq<char>, Seq<Glyph>> {
        self.mappings@
    }

    /// The context of the engine.
    pub closed spec fn context(&self) -> ContextView {
        self.context@
    }

    /// The invariant of the type: the table is well formed.
    pub closed spec fn wf(&self) -> bool {
        self.mappings.wf()
    }

    /// The state of the scan that the engine is in, with `pos` characters
    /// consumed, `pending` waiting and `output` written.
    spec fn scan_state(
        &self,
        pos: nat,
        pending: Option<PendingConsonant>,
        output: Seq<char>,
    ) -> ScanState {
        ScanState {
            pos,
            pending: pending_view(pending),
            prevent_conjunct: self.context.prevent_conjunct,
            output,
        }
    }

    /// The context names the consonant that waits, and no other glyph.
    spec fn tracks(&self, pending: Option<PendingConsonant>) -> bool {
        self.context@.previous == match pending {
            Some(p) => Some(Glyph::Consonant(p.base)),
            None => None,
        }
    }

    /// An engine with the standard table and a cleared context.
    pub fn new() -> (p: Self)
        ensures
            p.wf(),
            p.table() == crate::scheme::default_mappings(),
            p.context() == cleared_context(),
    {
        Self::with_table(MappingTable::standard())
    }

    /// An engine with the given table and a cleared context.
    pub fn with_table(mappings: MappingTable) -> (p: Self)
        requires
            mappings.wf(),
        ensures
            p.wf(),
            p.table() == mappings@,
            p.context() == cleared_context(),
    {
        Processor {
            mappings,
            context: ProcessingContext { previous: None, prevent_conjunct: false },
        }
    }

    /// The table of the engine.
    pub fn mappings(&self) -> (t: &MappingTable)
        requires
            self.wf(),
        ensures
            t.wf(),
            t@ == self.table(),
    {
        &self.mappings
    }

    /// The context as the last call left it.
    pub fn current_context(&self) -> (c: &ProcessingContext)
        ensures
            c@ == self.context(),
    {
        &self.context
    }

    fn clear_context(&mut self)
        ensures
            final(self).mappings == old(self).mappings,
            final(self).context@ == cleared_context(),
            final(self).tracks(None),
    {
        self.context.previous = None;
        self.context.prevent_conjunct = false;
    }

    /// Writes the consonant that waits, if one does, with its inherent vowel:
    /// its base character and nothing after it.
    fn process_pending_consonant(pending: &mut Option<PendingConsonant>, output: &mut Vec<char>)
        ensures
            *final(pending) is None,
            final(output)@ == flushed(old(output)@, pending_view(*old(pending))),
    {
        match pending.take() {
            Some(p) => {
                output.push(p.base);
            },
            None => {},
        }
    }

    /// Selects among the candidates of a key: a vowel sign while a consonant
    /// waits, else an independent vowel, else the first candidate.
    fn select_bengali_char(&self, candidates: &Vec<BengaliChar>) -> (g: BengaliChar)
        requires
            candidates.len() >= 1,
        ensures
            g@ == select(
                self.context@.previous matches Some(Glyph::Consonant(_)),
                glyphs_of(candidates@),
            ),
    {
        let waiting = match &self.context.previous {
            Some(BengaliChar::Consonant(_)) => true,
            _ => false,
        };
        if waiting {
            match find_kind(candidates, GlyphKind::VowelSign) {
                Some(i) => {
                    return candidates[i].clone();
                },
                None => {},
            }
        }
        match find_kind(candidates, GlyphKind::Vowel) {
            Some(i) => candidates[i].clone(),
            None => candidates[0].clone(),
        }
    }

    /// The cluster declared for the consonant keys `first` and `second`
    /// written without a separator.
    fn find_cluster(&self, first: &Vec<char>, second: &Vec<char>) -> (r: Option<&Vec<char>>)
        requires
            self.wf(),
        ensures
            match r {
                Some(cluster) => cluster_of(self.table(), first@, second@) == Some(cluster@),
                None => cluster_of(self.table(), first@, second@) is None,
            },
    {
        let mut joined: Vec<char> = Vec::new();
        append_chars(&mut joined, first);
        append_chars(&mut joined, second);
        proof {
            assert(joined@ =~= first@ + second@);
        }
        match self.mappings.get(&joined) {
            Some(candidates) => match find_kind(candidates, GlyphKind::Compound) {
                Some(i) => match &candidates[i] {
                    BengaliChar::Compound(cluster) => Some(cluster),
                    _ => None,
                },
                None => None,
            },
            None => None,
        }
    }

    /// Combines the glyph selected for `key` with what waits.
    fn handle_bengali_chars(
        &mut self,
        key: Vec<char>,
        pending: &mut Option<PendingConsonant>,
        output: &mut Vec<char>,
        Ghost(pos): Ghost<nat>,
    )
        requires
            old(self).wf(),
            old(self).table().contains_key(key@),
            old(self).tracks(*old(pending)),
        ensures
            final(self).mappings == old(self).mappings,
            final(self).tracks(*final(pending)),
            final(self).scan_state(pos, *final(pending), final(output)@) == combine(
                old(self).table(),
                old(self).scan_state(pos, *old(pending), old(output)@),
                key@,
                select(*old(pending) is Some, old(self).table()[key@]),
            ),
    {
        let glyph = match self.mappings.get(&key) {
            Some(candidates) => self.select_bengali_char(candidates),
            None => {
                proof {
                    assert(false);
                }
                return ;
            },
        };
        match glyph {
            BengaliChar::Consonant(ch) => {
                let mut joined = false;
                match pending.take() {
                    Some(prev) => {
                        if self.context.prevent_conjunct {
                            output.push(prev.base);
                        } else {
                            match self.find_cluster(&prev.key, &key) {
                                Some(cluster) => {
                                    append_chars(output, cluster);
                                    joined = true;
                                },
                                None => {
                                    output.push(prev.base);
                                    output.push(HASANTA);
                                },
                            }
                        }
                    },
                    None => {},
                }
                if joined {
                    self.context.previous = None;
                } else {
                    *pending = Some(PendingConsonant { key, base: ch });
                    self.context.previous = Some(BengaliChar::Consonant(ch));
                }
                self.context.prevent_conjunct = false;
            },
            BengaliChar::VowelSign(ch) => {
                match pending.take() {
                    Some(prev) => {
                        output.push(prev.base);
                        output.push(ch);
                    },
                    None => {
                        match vowel_sign_to_independent_vowel(ch) {
                            Some(vowel) => {
                                output.push(vowel);
                            },
                            None => {
                                output.push(ch);
                            },
                        }
                    },
                }
                self.clear_context();
            },
            BengaliChar::Vowel(ch) => {
                Self::process_pending_consonant(pending, output);
                output.push(ch);
                self.clear_context();
            },
            BengaliChar::Special(ch) => {
                Self::process_pending_consonant(pending, output);
                output.push(ch);
                self.clear_context();
            },
            BengaliChar::Symbol(ch) => {
                Self::process_pending_consonant(pending, output);
                output.push(ch);
                self.clear_context();
            },
            BengaliChar::Compound(cluster) => {
                Self::process_pending_consonant(pending, output);
                append_chars(output, &cluster);
                self.clear_context();
            },
        }
    }

    /// The longest window at `index` that the table resolves, and the key
    /// under which it does; 0 and no key where none resolves.
    fn match_at(&self, chars: &Vec<char>, index: usize) -> (r: (usize, Option<Vec<char>>))
        requires
            self.wf(),
            index < chars.len(),
        ensures
            r.0 == match_within(self.table(), chars@, index as nat, MAX_KEY_LEN as nat),
            index + r.0 <= chars.len(),
            match r.1 {
                Some(key) => r.0 > 0 && self.table().contains_key(key@) && resolved_key(
                    self.table(),
                    window(chars@, index as nat, r.0 as nat),
                ) == Some(key@),
                None => r.0 == 0,
            },
    {
        let mut len: usize = MAX_KEY_LEN;
        while len > 0
            invariant
                self.wf(),
                index < chars.len(),
                len <= MAX_KEY_LEN,
                match_within(self.table(), chars@, index as nat, MAX_KEY_LEN as nat)
                    == match_within(self.table(), chars@, index as nat, len as nat),
            decreases len,
        {
            if len <= chars.len() - index {
                let w = copy_window(chars, index, len);
                let folded = to_lowercase(&w);
                match self.mappings.resolve(w, folded) {
                    Some(key) => {
                        return (len, Some(key));
                    },
                    None => {},
                }
            }
            len -= 1;
        }
        (0, None)
    }

    /// The longest window at `index` that is a key of the table as it
    /// stands; 0 where none is.
    fn escape_at(&self, chars: &Vec<char>, index: usize) -> (len: usize)
        requires
            self.wf(),
            index < chars.len(),
        ensures
            len == escape_within(self.table(), chars@, index as nat, MAX_KEY_LEN as nat),
            index + len <= chars.len(),
            len > 0 ==> self.table().contains_key(window(chars@, index as nat, len as nat)),
    {
        let mut len: usize = MAX_KEY_LEN;
        while len > 0
            invariant
                self.wf(),
                index < chars.len(),
                len <= MAX_KEY_LEN,
                escape_within(self.table(), chars@, index as nat, MAX_KEY_LEN as nat)
                    == escape_within(self.table(), chars@, index as nat, len as nat),
            decreases len,
        {
            if len <= chars.len() - index {
                let w = copy_window(chars, index, len);
                if self.mappings.get(&w).is_some() {
                    return len;
                }
            }
            len -= 1;
        }
        0
    }

    /// Writes the character of each glyph of the key `key`.
    fn write_glyphs(&self, key: &Vec<char>, output: &mut Vec<char>)
        requires
            self.wf(),
            self.table().contains_key(key@),
        ensures
            final(output)@ == old(output)@ + glyph_chars(self.table()[key@]),
    {
        match self.mappings.get(key) {
            Some(candidates) => {
                let ghost gs = glyphs_of(candidates@);
                let mut i: usize = 0;
                while i < candidates.len()
                    invariant
                        i <= candidates.len(),
                        gs == glyphs_of(candidates@),
                        output@ == old(output)@ + glyph_chars(gs).take(i as int),
                    decreases candidates.len() - i,
                {
                    output.push(candidates[i].to_char());
                    proof {
                        assert(glyph_chars(gs).take(i + 1) =~= glyph_chars(gs).take(i as int).push(
                            glyph_chars(gs)[i as int],
                        ));
                        assert(output@ =~= old(output)@ + glyph_chars(gs).take(i + 1));
                    }
                    i += 1;
                }
                proof {
                    assert(glyph_chars(gs).take(candidates.len() as int) =~= glyph_chars(gs));
                }
            },
            None => {},
        }
    }

    /// Consumes the token at `index` and gives the index after it.
    fn advance(
        &mut self,
        chars: &Vec<char>,
        index: usize,
        pending: &mut Option<PendingConsonant>,
        output: &mut Vec<char>,
    ) -> (next: usize)
        requires
            old(self).wf(),
            index < chars.len(),
            old(self).tracks(*old(pending)),
        ensures
            final(self).mappings == old(self).mappings,
            final(self).tracks(*final(pending)),
            index < next <= chars.len(),
            final(self).scan_state(next as nat, *final(pending), final(output)@) == step(
                old(self).table(),
                chars@,
                old(self).scan_state(index as nat, *old(pending), old(output)@),
            ),
    {
        let c = chars[index];
        if is_boundary(c) {
            Self::process_pending_consonant(pending, output);
            output.push(c);
            self.clear_context();
            index + 1
        } else if c == ESCAPE {
            Self::process_pending_consonant(pending, output);
            let len = self.escape_at(chars, index);
            self.clear_context();
            if len == 0 {
                output.push(ESCAPE);
                index + 1
            } else {
                let w = copy_window(chars, index, len);
                self.write_glyphs(&w, output);
                index + len
            }
        } else {
            let (len, found) = self.match_at(chars, index);
            match found {
                Some(key) => {
                    proof {
                        assert((len == 1 && c == 'o') == (window(chars@, index as nat, len as nat)
                            == inherent_vowel_key())) by {
                            let w = window(chars@, index as nat, len as nat);
                            if len == 1 && c == 'o' {
                                assert(w =~= inherent_vowel_key());
                            }
                            if w == inherent_vowel_key() {
                                assert(w.len() == 1);
                                assert(w[0] == 'o');
                            }
                        }
                    }
                    if len == 1 && c == 'o' && pending.is_some() {
                        self.context.prevent_conjunct = true;
                    } else {
                        self.handle_bengali_chars(key, pending, output, Ghost(index as nat));
                    }
                    index + len
                },
                None => {
                    Self::process_pending_consonant(pending, output);
                    output.push(c);
                    self.clear_context();
                    index + 1
                },
            }
        }
    }

    /// The number of characters that the token at `index` consumes.
    fn token_len(&self, chars: &Vec<char>, index: usize) -> (len: usize)
        requires
            self.wf(),
            index < chars.len(),
        ensures
            len == crate::rules::token_len(self.table(), chars@, index as nat),
            1 <= len,
            index + len <= chars.len(),
    {
        let c = chars[index];
        let matched = if is_boundary(c) {
            0
        } else if c == ESCAPE {
            self.escape_at(chars, index)
        } else {
            self.match_at(chars, index).0
        };
        if matched == 0 {
            1
        } else {
            matched
        }
    }

    /// Whether no window of `input` resolves to a key of the table, as
    /// written or in its lower-case form, and no character of it is
    /// punctuation: such a line is its own transliteration.
    pub fn is_unmapped(&self, input: &str) -> (r: bool)
        requires
            self.wf(),
        ensures
            r == crate::laws::is_unmapped(self.table(), input@),
    {
        let chars = chars_of(input);
        let mut index: usize = 0;
        while index < chars.len()
            invariant
                self.wf(),
                chars@ == input@,
                index <= chars.len(),
                forall|i: int| 0 <= i < index ==> !spec_is_punctuation(#[trigger] chars@[i]),
                forall|i: nat, len: nat|
                    i < index && 1 <= len <= MAX_KEY_LEN && i + len <= chars.len()
                        ==> resolved_key(self.table(), #[trigger] window(chars@, i, len)) is None,
            decreases chars.len() - index,
        {
            if is_punctuation(chars[index]) {
                return false;
            }
            let found = self.match_at(&chars, index).0;
            proof {
                law_longest_match(self.table(), chars@, index as nat, MAX_KEY_LEN as nat);
            }
            if found > 0 {
                proof {
                    let w = window(chars@, index as nat, found as nat);
                    assert(resolved_key(self.table(), w) is Some);
                }
                return false;
            }
            index += 1;
        }
        true
    }

    /// Whether the scan of `input` comes to the position `pos`: a token
    /// starts there, or the input ends there.
    pub fn comes_to(&self, input: &str, pos: usize) -> (r: bool)
        requires
            self.wf(),
        ensures
            r == crate::rules::comes_to(self.table(), input@, pos as nat),
    {
        let chars = chars_of(input);
        let mut index: usize = 0;
        let ghost mut n: nat = 0;
        while index < pos && index < chars.len()
            invariant
                self.wf(),
                chars@ == input@,
                index <= chars.len(),
                after_tokens(self.table(), chars@, n).pos == index,
                index > pos ==> n > 0 && after_tokens(self.table(), chars@, (n - 1) as nat).pos
                    < pos,
            decreases chars.len() - index,
        {
            let len = self.token_len(&chars, index);
            index += len;
            proof {
                n = n + 1;
            }
        }
        proof {
            if index == pos {
                lemma_after_tokens_reached(self.table(), chars@, n);
            } else if index > pos {
                lemma_passes_over(self.table(), chars@, (n - 1) as nat, pos as nat);
            } else {
                lemma_passes_over(self.table(), chars@, n, pos as nat);
            }
        }
        index == pos
    }

    /// The base character of the consonant to which all that is left of the
    /// line at `index` resolves, where it is one and joins no cluster with
    /// what waits.
    fn bare_consonant_here(
        &self,
        chars: &Vec<char>,
        index: usize,
        pending: &Option<PendingConsonant>,
        Ghost(output): Ghost<Seq<char>>,
    ) -> (r: Option<char>)
        requires
            self.wf(),
            index < chars.len(),
            self.tracks(*pending),
        ensures
            forall|base: char|
                r == Some(base) <==> rest_is_bare_consonant(
                    self.table(),
                    chars@,
                    self.scan_state(index as nat, *pending, output),
                    base,
                ),
    {
        let c = chars[index];
        let rest = chars.len() - index;
        if rest > MAX_KEY_LEN || is_boundary(c) || c == ESCAPE {
            return None;
        }
        let (len, found) = self.match_at(chars, index);
        proof {
            law_longest_match(self.table(), chars@, index as nat, MAX_KEY_LEN as nat);
            let w = window(chars@, index as nat, rest as nat);
            if rest == 1 && c == 'o' {
                assert(w =~= inherent_vowel_key());
            }
            if w == inherent_vowel_key() {
                assert(w.len() == 1 && w[0] == 'o');
            }
        }
        let key = match found {
            Some(key) => key,
            None => {
                return None;
            },
        };
        if len != rest || (len == 1 && c == 'o' && pending.is_some()) {
            return None;
        }
        let glyph = match self.mappings.get(&key) {
            Some(candidates) => self.select_bengali_char(candidates),
            None => {
                return None;
            },
        };
        match glyph {
            BengaliChar::Consonant(base) => {
                let joins = match pending {
                    Some(prev) => !self.context.prevent_conjunct && self.find_cluster(
                        &prev.key,
                        &key,
                    ).is_some(),
                    None => false,
                };
                if joins {
                    None
                } else {
                    Some(base)
                }
            },
            _ => None,
        }
    }

    /// The base character of the bare consonant in which `input` ends, if it
    /// ends in one: then the transliteration of `input` ends with that
    /// character.
    pub fn bare_consonant_at_end(&mut self, input: &str) -> (r: Option<char>)
        requires
            old(self).wf(),
        ensures
            final(self).wf(),
            final(self).table() == old(self).table(),
            final(self).context() == cleared_context(),
            forall|base: char|
                r == Some(base) <==> ends_in_bare_consonant(old(self).table(), input@, base),
    {
        let chars = chars_of(input);
        let mut output: Vec<char> = Vec::new();
        let mut pending: Option<PendingConsonant> = None;
        let mut index: usize = 0;
        let ghost mut n: nat = 0;
        self.clear_context();
        while index < chars.len()
            invariant
                self.wf(),
                self.mappings == old(self).mappings,
                self.tracks(pending),
                chars@ == input@,
                index <= chars.len(),
                index < chars.len() || n == 0,
                self.scan_state(index as nat, pending, output@) == after_tokens(
                    self.table(),
                    chars@,
                    n,
                ),
            decreases chars.len() - index,
        {
            let ghost st = self.scan_state(index as nat, pending, output@);
            let len = self.token_len(&chars, index);
            if index + len == chars.len() {
                let r = self.bare_consonant_here(&chars, index, &pending, Ghost(output@));
                proof {
                    let table = self.table();
                    lemma_after_tokens_reached(table, chars@, n);
                    assert forall|base: char| ends_in_bare_consonant(table, chars@, base) implies r
                        == Some(base) by {
                        let other = choose|other: ScanState|
                            reached(table, chars@, other) && rest_is_bare_consonant(
                                table,
                                chars@,
                                other,
                                base,
                            );
                        lemma_bare_consonant_is_last(table, chars@, other, base);
                        lemma_last_token_unique(table, chars@, n, other);
                    }
                }
                self.clear_context();
                return r;
            }
            index = self.advance(&chars, index, &mut pending, &mut output);
            proof {
                n = n + 1;
            }
        }
        self.clear_context();
        proof {
            assert forall|base: char| !ends_in_bare_consonant(self.table(), chars@, base) by {
                if ends_in_bare_consonant(self.table(), chars@, base) {
                    let other = choose|other: ScanState|
                        reached(self.table(), chars@, other) && rest_is_bare_consonant(
                            self.table(),
                            chars@,
                            other,
                            base,
                        );
                    assert(other.pos < chars@.len());
                }
            }
        }
        None
    }

    /// Transliterates one line.
    ///
    /// The result is the transliteration of `input` under the table of the
    /// engine. What the context held before the call has no part in it, and
    /// when the call returns nothing waits: the context is cleared. A line
    /// of which no window resolves and which holds no punctuation comes back
    /// as it is, and a line that ends in a bare consonant gives a result that
    /// ends with the base character of that consonant.
    pub fn process_input(&mut self, input: &str) -> (out: String)
        requires
            old(self).wf(),
        ensures
            final(self).wf(),
            final(self).table() == old(self).table(),
            final(self).context() == cleared_context(),
            out@ == transliterate(old(self).table(), input@),
            crate::laws::is_unmapped(old(self).table(), input@) ==> out@ == input@,
            forall|base: char|
                ends_in_bare_consonant(old(self).table(), input@, base) ==> out@.len() > 0
                    && out@.last() == base,
    {
        let chars = chars_of(input);
        let mut output: Vec<char> = Vec::new();
        let mut pending: Option<PendingConsonant> = None;
        let mut index: usize = 0;
        proof {
            let table = self.table();
            if crate::laws::is_unmapped(table, input@) {
                law_passthrough(table, input@);
            }
            assert forall|base: char| ends_in_bare_consonant(table, input@, base) implies
                transliterate(table, input@).len() > 0 && transliterate(table, input@).last()
                == base by {
                law_flush_at_end(table, input@, base);
            }
        }
        self.clear_context();
        while index < chars.len()
            invariant
                self.wf(),
                self.mappings == old(self).mappings,
                self.tracks(pending),
                index <= chars.len(),
                scan(self.table(), chars@, self.scan_state(index as nat, pending, output@))
                    == scan(self.table(), chars@, start()),
            decreases chars.len() - index,
        {
            index = self.advance(&chars, index, &mut pending, &mut output);
        }
        Self::process_pending_consonant(&mut pending, &mut output);
        self.clear_context();
        string_from_chars(&output)
    }
}

} // verus!
