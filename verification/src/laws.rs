//! What holds of every transliteration, proved from the rules.

use vstd::prelude::*;
use crate::chars::{spec_is_boundary, spec_is_punctuation, ESCAPE};
use crate::rules::{
    after_tokens, cluster_of, comes_to, escape_within, flushed, inherent_vowel_key, match_within,
    matched_len, reached, remaining, resolved_key, scan, select, settled, start, step,
    transliterate, window, ScanState,
};
use crate::table::MAX_KEY_LEN;
use crate::types::Glyph;

verus! {

/// A match is no longer than the bound it was sought within, and lies
/// within the input.
pub proof fn lemma_match_within_bound(
    table: Map<Seq<char>, Seq<Glyph>>,
    input: Seq<char>,
    pos: nat,
    len: nat,
)
    ensures
        match_within(table, input, pos, len) <= len,
        match_within(table, input, pos, len) > 0 ==> pos + match_within(table, input, pos, len)
            <= input.len(),
        escape_within(table, input, pos, len) <= len,
        escape_within(table, input, pos, len) > 0 ==> pos + escape_within(table, input, pos, len)
            <= input.len(),
    decreases len,
{
    if len > 0 {
        lemma_match_within_bound(table, input, pos, (len - 1) as nat);
    }
}

/// Longest match: the window that is matched resolves, and no longer window
/// within the bound does; where nothing is matched, no window within the
/// bound resolves.
pub proof fn law_longest_match(
    table: Map<Seq<char>, Seq<Glyph>>,
    input: Seq<char>,
    pos: nat,
    bound: nat,
)
    ensures
        ({
            let found = match_within(table, input, pos, bound);
            &&& found > 0 ==> found <= bound && pos + found <= input.len() && resolved_key(
                table,
                window(input, pos, found),
            ) is Some
            &&& forall|len: nat|
                found < len <= bound && pos + len <= input.len() ==> resolved_key(
                    table,
                    #[trigger] window(input, pos, len),
                ) is None
        }),
    decreases bound,
{
    if bound > 0 {
        law_longest_match(table, input, pos, (bound - 1) as nat);
    }
}

/// Every token consumes at least one character and none beyond the input.
pub proof fn lemma_step_advances(
    table: Map<Seq<char>, Seq<Glyph>>,
    input: Seq<char>,
    st: ScanState,
)
    requires
        st.pos < input.len(),
    ensures
        st.pos < step(table, input, st).pos <= input.len(),
{
    lemma_match_within_bound(table, input, st.pos, MAX_KEY_LEN as nat);
}

/// The scan from a state that the scan passes through ends where the scan
/// from the start ends.
pub proof fn lemma_scan_from_reached(
    table: Map<Seq<char>, Seq<Glyph>>,
    input: Seq<char>,
    st: ScanState,
)
    requires
        reached(table, input, st),
    ensures
        scan(table, input, st) == scan(table, input, start()),
{
    let n = choose|n: nat| after_tokens(table, input, n) == st;
    lemma_scan_after_tokens(table, input, n);
}

proof fn lemma_scan_after_tokens(table: Map<Seq<char>, Seq<Glyph>>, input: Seq<char>, n: nat)
    ensures
        scan(table, input, after_tokens(table, input, n)) == scan(table, input, start()),
    decreases n,
{
    if n > 0 {
        lemma_scan_after_tokens(table, input, (n - 1) as nat);
        let st = after_tokens(table, input, (n - 1) as nat);
        if st.pos < input.len() {
            lemma_step_advances(table, input, st);
        }
    }
}

/// Whether no window of the input resolves to a key, as written or in its
/// lower-case form, and no character of it is punctuation.
pub open spec fn is_unmapped(table: Map<Seq<char>, Seq<Glyph>>, input: Seq<char>) -> bool {
    &&& forall|i: int| 0 <= i < input.len() ==> !spec_is_punctuation(#[trigger] input[i])
    &&& forall|i: nat, len: nat|
        1 <= len <= MAX_KEY_LEN && i + len <= input.len() ==> resolved_key(
            table,
            #[trigger] window(input, i, len),
        ) is None
}

proof fn lemma_no_match(table: Map<Seq<char>, Seq<Glyph>>, input: Seq<char>, pos: nat, len: nat)
    requires
        is_unmapped(table, input),
        len <= MAX_KEY_LEN,
    ensures
        match_within(table, input, pos, len) == 0,
    decreases len,
{
    if len > 0 {
        lemma_no_match(table, input, pos, (len - 1) as nat);
    }
}

proof fn lemma_scan_unmapped(table: Map<Seq<char>, Seq<Glyph>>, input: Seq<char>, pos: nat)
    requires
        is_unmapped(table, input),
        pos <= input.len(),
    ensures
        scan(table, input, settled(ScanState { pos, ..start() }, input.take(pos as int)))
            == settled(ScanState { pos: input.len(), ..start() }, input),
    decreases input.len() - pos,
{
    let st = settled(ScanState { pos, ..start() }, input.take(pos as int));
    if pos < input.len() {
        lemma_no_match(table, input, pos, MAX_KEY_LEN as nat);
        assert(!spec_is_punctuation(input[pos as int]));
        assert(input.take(pos as int).push(input[pos as int]) =~= input.take((pos + 1) as int));
        assert(step(table, input, st) == settled(
            ScanState { pos: pos + 1, ..start() },
            input.take((pos + 1) as int),
        ));
        lemma_scan_unmapped(table, input, pos + 1);
    } else {
        assert(input.take(pos as int) =~= input);
    }
}

/// Passthrough: an input of which no window resolves to a key, and which
/// holds no punctuation, is its own transliteration. `Processor::is_unmapped`
/// tests the premise.
pub proof fn law_passthrough(table: Map<Seq<char>, Seq<Glyph>>, input: Seq<char>)
    requires
        is_unmapped(table, input),
    ensures
        transliterate(table, input) == input,
{
    assert(input.take(0) =~= Seq::<char>::empty());
    lemma_scan_unmapped(table, input, 0);
}

/// Whether what is left of the input after `st` is one window that resolves
/// to a consonant with the base character `base`, and that consonant joins
/// no cluster with what waits.
pub open spec fn rest_is_bare_consonant(
    table: Map<Seq<char>, Seq<Glyph>>,
    input: Seq<char>,
    st: ScanState,
    base: char,
) -> bool {
    let len = (input.len() - st.pos) as nat;
    let w = window(input, st.pos, len);
    let key = resolved_key(table, w)->0;
    &&& st.pos < input.len() <= st.pos + MAX_KEY_LEN
    &&& !spec_is_boundary(input[st.pos as int])
    &&& input[st.pos as int] != ESCAPE
    &&& resolved_key(table, w) is Some
    &&& !(w == inherent_vowel_key() && st.pending is Some)
    &&& select(st.pending is Some, table[key]) == Glyph::Consonant(base)
    &&& st.pending is Some && !st.prevent_conjunct ==> cluster_of(table, st.pending->0.key, key)
        is None
}

proof fn lemma_match_rest(
    table: Map<Seq<char>, Seq<Glyph>>,
    input: Seq<char>,
    pos: nat,
    len: nat,
)
    requires
        pos < input.len(),
        resolved_key(table, window(input, pos, (input.len() - pos) as nat)) is Some,
        len >= input.len() - pos,
    ensures
        match_within(table, input, pos, len) == input.len() - pos,
    decreases len,
{
    if len > input.len() - pos {
        lemma_match_rest(table, input, pos, (len - 1) as nat);
    }
}

/// Whether the scan of the input comes to a state from which what is left
/// is one window that resolves to a consonant with the base character
/// `base`, and that consonant joins no cluster with what waits.
pub open spec fn ends_in_bare_consonant(
    table: Map<Seq<char>, Seq<Glyph>>,
    input: Seq<char>,
    base: char,
) -> bool {
    exists|st: ScanState|
        reached(table, input, st) && rest_is_bare_consonant(table, input, st, base)
}

/// A bare consonant in which the input ends is the last token of the input.
pub proof fn lemma_bare_consonant_is_last(
    table: Map<Seq<char>, Seq<Glyph>>,
    input: Seq<char>,
    st: ScanState,
    base: char,
)
    requires
        rest_is_bare_consonant(table, input, st, base),
    ensures
        st.pos < input.len(),
        step(table, input, st).pos == input.len(),
        step(table, input, st).pending is Some,
        step(table, input, st).pending->0.base == base,
{
    lemma_match_rest(table, input, st.pos, MAX_KEY_LEN as nat);
}

/// Flush at the end: where the input ends in a window that resolves to a
/// consonant, and that consonant joins no cluster, the transliteration ends
/// with the base character of that consonant.
/// `Processor::bare_consonant_at_end` tests the premise.
pub proof fn law_flush_at_end(table: Map<Seq<char>, Seq<Glyph>>, input: Seq<char>, base: char)
    requires
        ends_in_bare_consonant(table, input, base),
    ensures
        transliterate(table, input).len() > 0,
        transliterate(table, input).last() == base,
{
    let st = choose|st: ScanState|
        reached(table, input, st) && rest_is_bare_consonant(table, input, st, base);
    lemma_scan_from_reached(table, input, st);
    lemma_bare_consonant_is_last(table, input, st, base);
    let next = step(table, input, st);
    assert(scan(table, input, next) == next);
}

/// The state `st` with `head` written before its output.
pub open spec fn prefixed(st: ScanState, head: Seq<char>) -> ScanState {
    ScanState { output: head + st.output, ..st }
}

/// The state `st` with its position moved on by `by`.
pub open spec fn shifted(st: ScanState, by: nat) -> ScanState {
    ScanState { pos: st.pos + by, ..st }
}

proof fn lemma_step_prefixed(
    table: Map<Seq<char>, Seq<Glyph>>,
    input: Seq<char>,
    st: ScanState,
    head: Seq<char>,
)
    requires
        st.pos < input.len(),
    ensures
        step(table, input, prefixed(st, head)) == prefixed(step(table, input, st), head),
{
    let a = step(table, input, prefixed(st, head));
    let b = prefixed(step(table, input, st), head);
    assert(a.output =~= b.output);
}

proof fn lemma_scan_prefixed(
    table: Map<Seq<char>, Seq<Glyph>>,
    input: Seq<char>,
    st: ScanState,
    head: Seq<char>,
)
    ensures
        scan(table, input, prefixed(st, head)) == prefixed(scan(table, input, st), head),
    decreases remaining(input, st.pos),
{
    if st.pos < input.len() {
        lemma_step_advances(table, input, st);
        lemma_step_prefixed(table, input, st, head);
        lemma_scan_prefixed(table, input, step(table, input, st), head);
    }
}

proof fn lemma_window_shifted(input: Seq<char>, by: nat, pos: nat, len: nat)
    requires
        by + pos + len <= input.len(),
    ensures
        window(input, by + pos, len) == window(input.skip(by as int), pos, len),
{
    assert(window(input, by + pos, len) =~= window(input.skip(by as int), pos, len));
}

proof fn lemma_match_shifted(
    table: Map<Seq<char>, Seq<Glyph>>,
    input: Seq<char>,
    by: nat,
    pos: nat,
    len: nat,
)
    requires
        by <= input.len(),
    ensures
        match_within(table, input, by + pos, len) == match_within(
            table,
            input.skip(by as int),
            pos,
            len,
        ),
        escape_within(table, input, by + pos, len) == escape_within(
            table,
            input.skip(by as int),
            pos,
            len,
        ),
    decreases len,
{
    if len > 0 {
        lemma_match_shifted(table, input, by, pos, (len - 1) as nat);
        if by + pos + len <= input.len() {
            lemma_window_shifted(input, by, pos, len);
        }
    }
}

proof fn lemma_step_shifted(
    table: Map<Seq<char>, Seq<Glyph>>,
    input: Seq<char>,
    by: nat,
    st: ScanState,
)
    requires
        by + st.pos < input.len(),
    ensures
        step(table, input, shifted(st, by)) == shifted(
            step(table, input.skip(by as int), st),
            by,
        ),
{
    let rest = input.skip(by as int);
    lemma_match_shifted(table, input, by, st.pos, MAX_KEY_LEN as nat);
    lemma_match_within_bound(table, rest, st.pos, MAX_KEY_LEN as nat);
    let len = matched_len(table, rest, st.pos);
    assert(matched_len(table, input, by + st.pos) == len);
    if len > 0 {
        lemma_window_shifted(input, by, st.pos, len);
    }
    assert(window(input, by + st.pos, 0) =~= window(rest, st.pos, 0));
}

proof fn lemma_scan_shifted(
    table: Map<Seq<char>, Seq<Glyph>>,
    input: Seq<char>,
    by: nat,
    st: ScanState,
)
    requires
        by <= input.len(),
    ensures
        scan(table, input, shifted(st, by)) == shifted(
            scan(table, input.skip(by as int), st),
            by,
        ),
    decreases remaining(input, by + st.pos),
{
    let rest = input.skip(by as int);
    if by + st.pos < input.len() {
        lemma_step_advances(table, rest, st);
        lemma_step_shifted(table, input, by, st);
        lemma_scan_shifted(table, input, by, step(table, rest, st));
    }
}

/// A boundary resets the state: where the scan comes to a boundary
/// character, the transliteration of the line is what was written before
/// it, with what waited written out, then the boundary itself, then the
/// transliteration of what follows the boundary taken as a line by itself.
pub proof fn law_boundary_resets(
    table: Map<Seq<char>, Seq<Glyph>>,
    input: Seq<char>,
    st: ScanState,
)
    requires
        reached(table, input, st),
        st.pos < input.len(),
        spec_is_boundary(input[st.pos as int]),
    ensures
        transliterate(table, input) == flushed(st.output, st.pending).push(input[st.pos as int])
            + transliterate(table, input.skip((st.pos + 1) as int)),
{
    let head = flushed(st.output, st.pending).push(input[st.pos as int]);
    let by = st.pos + 1;
    lemma_scan_from_reached(table, input, st);
    assert(step(table, input, st) == prefixed(shifted(start(), by), head)) by {
        assert(head + Seq::<char>::empty() =~= head);
    }
    lemma_scan_prefixed(table, input, shifted(start(), by), head);
    lemma_scan_shifted(table, input, by, start());
    let end = scan(table, input.skip(by as int), start());
    assert(scan(table, input, st) == prefixed(shifted(end, by), head));
    assert(flushed(head + end.output, end.pending) =~= head + flushed(end.output, end.pending));
}

proof fn lemma_positions_grow(
    table: Map<Seq<char>, Seq<Glyph>>,
    input: Seq<char>,
    a: nat,
    b: nat,
)
    requires
        a <= b,
    ensures
        after_tokens(table, input, a).pos <= after_tokens(table, input, b).pos,
    decreases b,
{
    if a < b {
        lemma_positions_grow(table, input, a, (b - 1) as nat);
        let st = after_tokens(table, input, (b - 1) as nat);
        if st.pos < input.len() {
            lemma_step_advances(table, input, st);
        }
    }
}

proof fn lemma_match_taken(
    table: Map<Seq<char>, Seq<Glyph>>,
    input: Seq<char>,
    end: nat,
    pos: nat,
    len: nat,
)
    requires
        pos < end <= input.len(),
    ensures
        pos + match_within(table, input, pos, len) <= end ==> match_within(
            table,
            input.take(end as int),
            pos,
            len,
        ) == match_within(table, input, pos, len),
        pos + escape_within(table, input, pos, len) <= end ==> escape_within(
            table,
            input.take(end as int),
            pos,
            len,
        ) == escape_within(table, input, pos, len),
    decreases len,
{
    if len > 0 {
        lemma_match_taken(table, input, end, pos, (len - 1) as nat);
        if pos + len <= end {
            assert(window(input.take(end as int), pos, len) =~= window(input, pos, len));
        }
    }
}

proof fn lemma_step_taken(
    table: Map<Seq<char>, Seq<Glyph>>,
    input: Seq<char>,
    end: nat,
    st: ScanState,
)
    requires
        st.pos < end <= input.len(),
        step(table, input, st).pos <= end,
    ensures
        step(table, input.take(end as int), st) == step(table, input, st),
{
    let head = input.take(end as int);
    lemma_match_taken(table, input, end, st.pos, MAX_KEY_LEN as nat);
    lemma_match_within_bound(table, input, st.pos, MAX_KEY_LEN as nat);
    let len = matched_len(table, input, st.pos);
    assert(matched_len(table, head, st.pos) == len);
    assert(window(head, st.pos, len) =~= window(input, st.pos, len));
}

proof fn lemma_tokens_taken(
    table: Map<Seq<char>, Seq<Glyph>>,
    input: Seq<char>,
    total: nat,
    n: nat,
)
    requires
        n <= total,
        after_tokens(table, input, total).pos <= input.len(),
    ensures
        after_tokens(table, input.take(after_tokens(table, input, total).pos as int), n)
            == after_tokens(table, input, n),
    decreases n,
{
    if n > 0 {
        let end = after_tokens(table, input, total).pos;
        let st = after_tokens(table, input, (n - 1) as nat);
        lemma_tokens_taken(table, input, total, (n - 1) as nat);
        lemma_positions_grow(table, input, n, total);
        if st.pos < input.len() {
            lemma_step_advances(table, input, st);
            lemma_step_taken(table, input, end, st);
        }
    }
}

/// What the scan has written when it comes to a position, with what waits
/// there written out, is the transliteration of the input up to that
/// position, taken as a line by itself.
pub proof fn lemma_reached_is_prefix(
    table: Map<Seq<char>, Seq<Glyph>>,
    input: Seq<char>,
    st: ScanState,
)
    requires
        reached(table, input, st),
        st.pos <= input.len(),
    ensures
        flushed(st.output, st.pending) == transliterate(table, input.take(st.pos as int)),
{
    let n = choose|n: nat| after_tokens(table, input, n) == st;
    let head = input.take(st.pos as int);
    lemma_tokens_taken(table, input, n, n);
    assert(reached(table, head, st));
    lemma_scan_from_reached(table, head, st);
}

/// A boundary splits the line: where the scan comes to a boundary
/// character, the transliteration of the line is the transliteration of
/// what precedes the boundary, then the boundary itself, then the
/// transliteration of what follows it, each taken as a line by itself.
/// `Processor::comes_to` tests the premise.
pub proof fn law_boundary_splits(table: Map<Seq<char>, Seq<Glyph>>, input: Seq<char>, pos: nat)
    requires
        comes_to(table, input, pos),
        pos < input.len(),
        spec_is_boundary(input[pos as int]),
    ensures
        transliterate(table, input) == transliterate(table, input.take(pos as int)).push(
            input[pos as int],
        ) + transliterate(table, input.skip((pos + 1) as int)),
{
    let st = choose|st: ScanState| reached(table, input, st) && st.pos == pos;
    law_boundary_resets(table, input, st);
    lemma_reached_is_prefix(table, input, st);
}

proof fn lemma_tokens_stay(table: Map<Seq<char>, Seq<Glyph>>, input: Seq<char>, a: nat, b: nat)
    requires
        a <= b,
        after_tokens(table, input, a).pos >= input.len(),
    ensures
        after_tokens(table, input, b) == after_tokens(table, input, a),
    decreases b,
{
    if a < b {
        lemma_tokens_stay(table, input, a, (b - 1) as nat);
    }
}

/// The scan comes to no position that lies strictly between two states
/// that follow each other, and to none beyond the state at which it ends.
pub proof fn lemma_passes_over(
    table: Map<Seq<char>, Seq<Glyph>>,
    input: Seq<char>,
    n: nat,
    pos: nat,
)
    requires
        after_tokens(table, input, n).pos < pos,
        pos < after_tokens(table, input, n + 1).pos || after_tokens(table, input, n).pos
            >= input.len(),
    ensures
        !comes_to(table, input, pos),
{
    assert forall|st: ScanState| reached(table, input, st) implies st.pos != pos by {
        let m = choose|m: nat| after_tokens(table, input, m) == st;
        if m <= n {
            lemma_positions_grow(table, input, m, n);
        } else if after_tokens(table, input, n).pos >= input.len() {
            lemma_tokens_stay(table, input, n, m);
        } else {
            lemma_positions_grow(table, input, n + 1, m);
        }
    }
}

/// The state after `n` tokens is one that the scan passes through.
pub proof fn lemma_after_tokens_reached(
    table: Map<Seq<char>, Seq<Glyph>>,
    input: Seq<char>,
    n: nat,
)
    ensures
        reached(table, input, after_tokens(table, input, n)),
        comes_to(table, input, after_tokens(table, input, n).pos),
{
    assert(reached(table, input, after_tokens(table, input, n)));
}

/// The scan passes through one state only from which the next token ends
/// the input: the state before its last token.
pub proof fn lemma_last_token_unique(
    table: Map<Seq<char>, Seq<Glyph>>,
    input: Seq<char>,
    n: nat,
    st: ScanState,
)
    requires
        after_tokens(table, input, n).pos < input.len(),
        after_tokens(table, input, n + 1).pos == input.len(),
        reached(table, input, st),
        st.pos < input.len(),
        step(table, input, st).pos == input.len(),
    ensures
        st == after_tokens(table, input, n),
{
    let m = choose|m: nat| after_tokens(table, input, m) == st;
    assert(after_tokens(table, input, m + 1) == step(table, input, st));
    if m < n {
        lemma_positions_grow(table, input, m + 1, n);
    } else if m > n {
        lemma_positions_grow(table, input, n + 1, m);
    }
}

} // verus!
