//! The glyph classifications and the rolling context of the engine.

use vstd::prelude::*;

verus! {

/// The mathematical value of a [`BengaliChar`].
pub enum Glyph {
    Vowel(char),
    Consonant(char),
    VowelSign(char),
    Special(char),
    Symbol(char),
    Compound(Seq<char>),
}

/// What one romanized key resolves to.
#[derive(Debug)]
pub enum BengaliChar {
    /// An independent vowel.
    Vowel(char),
    /// A base consonant, which carries its inherent vowel.
    Consonant(char),
    /// A dependent vowel sign, written on a consonant.
    VowelSign(char),
    /// A modifier that is neither vowel nor consonant.
    Special(char),
    /// A character that stands for itself.
    Symbol(char),
    /// A conjunct cluster, composed in advance.
    Compound(Vec<char>),
}

impl View for BengaliChar {
    type V = Glyph;

    open spec fn view(&self) -> Glyph {
        match self {
            BengaliChar::Vowel(c) => Glyph::Vowel(*c),
            BengaliChar::Consonant(c) => Glyph::Consonant(*c),
            BengaliChar::VowelSign(c) => Glyph::VowelSign(*c),
            BengaliChar::Special(c) => Glyph::Special(*c),
            BengaliChar::Symbol(c) => Glyph::Symbol(*c),
            BengaliChar::Compound(cs) => Glyph::Compound(cs@),
        }
    }
}

/// The classification of a glyph, without its characters.
#[derive(Clone, Copy, Debug, PartialEq, Eq, Structural)]
pub enum GlyphKind {
    Vowel,
    Consonant,
    VowelSign,
    Special,
    Symbol,
    Compound,
}

/// The classification of a glyph.
pub open spec fn kind_of(g: Glyph) -> GlyphKind {
    match g {
        Glyph::Vowel(_) => GlyphKind::Vowel,
        Glyph::Consonant(_) => GlyphKind::Consonant,
        Glyph::VowelSign(_) => GlyphKind::VowelSign,
        Glyph::Special(_) => GlyphKind::Special,
        Glyph::Symbol(_) => GlyphKind::Symbol,
        Glyph::Compound(_) => GlyphKind::Compound,
    }
}

/// The single character of a glyph; a cluster has none and gives NUL.
pub open spec fn glyph_char(g: Glyph) -> char {
    match g {
        Glyph::Vowel(c) => c,
        Glyph::Consonant(c) => c,
        Glyph::VowelSign(c) => c,
        Glyph::Special(c) => c,
        Glyph::Symbol(c) => c,
        Glyph::Compound(_) => '\0',
    }
}

/// The view of each glyph of a list, in order.
pub open spec fn glyphs_of(cs: Seq<BengaliChar>) -> Seq<Glyph> {
    Seq::new(cs.len(), |i: int| cs[i]@)
}

impl BengaliChar {
    pub fn kind(&self) -> (k: GlyphKind)
        ensures
            k == kind_of(self@),
    {
        match self {
            BengaliChar::Vowel(_) => GlyphKind::Vowel,
            BengaliChar::Consonant(_) => GlyphKind::Consonant,
            BengaliChar::VowelSign(_) => GlyphKind::VowelSign,
            BengaliChar::Special(_) => GlyphKind::Special,
            BengaliChar::Symbol(_) => GlyphKind::Symbol,
            BengaliChar::Compound(_) => GlyphKind::Compound,
        }
    }

    pub fn to_char(&self) -> (c: char)
        ensures
            c == glyph_char(self@),
    {
        match self {
            BengaliChar::Vowel(ch) => *ch,
            BengaliChar::Consonant(ch) => *ch,
            BengaliChar::VowelSign(ch) => *ch,
            BengaliChar::Special(ch) => *ch,
            BengaliChar::Symbol(ch) => *ch,
            BengaliChar::Compound(_) => '\0',
        }
    }
}

impl Clone for BengaliChar {
    fn clone(&self) -> (r: Self)
        ensures
            r@ == self@,
    {
        match self {
            BengaliChar::Vowel(ch) => BengaliChar::Vowel(*ch),
            BengaliChar::Consonant(ch) => BengaliChar::Consonant(*ch),
            BengaliChar::VowelSign(ch) => BengaliChar::VowelSign(*ch),
            BengaliChar::Special(ch) => BengaliChar::Special(*ch),
            BengaliChar::Symbol(ch) => BengaliChar::Symbol(*ch),
            BengaliChar::Compound(cs) => BengaliChar::Compound(cs.clone()),
        }
    }
}

/// The mathematical value of a [`ProcessingContext`].
pub struct ContextView {
    pub previous: Option<Glyph>,
    pub prevent_conjunct: bool,
}

/// The state that the engine carries from one matched key to the next.
#[derive(Debug)]
pub struct ProcessingContext {
    /// The consonant that was matched last and is still waiting, if any.
    pub previous: Option<BengaliChar>,
    /// Set while the next consonant must not join the waiting one.
    pub prevent_conjunct: bool,
}

impl View for ProcessingContext {
    type V = ContextView;

    open spec fn view(&self) -> ContextView {
        ContextView {
            previous: match self.previous {
                Some(g) => Some(g@),
                None => None,
            },
            prevent_conjunct: self.prevent_conjunct,
        }
    }
}

impl Clone for ProcessingContext {
    fn clone(&self) -> (r: Self)
        ensures
            r@ == self@,
    {
        ProcessingContext {
            previous: match &self.previous {
                Some(g) => Some(g.clone()),
                None => None,
            },
            prevent_conjunct: self.prevent_conjunct,
        }
    }
}

/// The context in which nothing is waiting.
pub open spec fn cleared_context() -> ContextView {
    ContextView { previous: None, prevent_conjunct: false }
}

} // verus!
