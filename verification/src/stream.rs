//! The token stream of a whole text, and what holds of it.

use crate::grammar::{lemma_token_bounds, token_at};
use crate::token::Token;
use vstd::prelude::*;

verus! {

/// The tokens of `s` from position `i` to the end, in order.
pub open spec fn tokens_from(s: Seq<char>, i: int) -> Seq<Token>
    decreases s.len() - i,
    via tokens_from_decreases
{
    if 0 <= i < s.len() {
        let (kind, end) = token_at(s, i);
        seq![Token { len: (end - i) as usize, kind }].add(tokens_from(s, end))
    } else {
        Seq::empty()
    }
}

#[via_fn]
proof fn tokens_from_decreases(s: Seq<char>, i: int) {
    if 0 <= i < s.len() {
        lemma_token_bounds(s, i);
    }
}

/// The tokens of the whole of `s`.
pub open spec fn tokens(s: Seq<char>) -> Seq<Token> {
    tokens_from(s, 0)
}

/// The lengths of `ts`, added up.
pub open spec fn total_len(ts: Seq<Token>) -> int
    decreases ts.len(),
{
    if ts.len() == 0 {
        0
    } else {
        ts[0].len + total_len(ts.drop_first())
    }
}

/// The pieces that are cut off the front of `s`, one after another, with the
/// lengths of `ts`.
pub open spec fn slices(s: Seq<char>, ts: Seq<Token>) -> Seq<Seq<char>>
    decreases ts.len(),
{
    if ts.len() == 0 {
        Seq::empty()
    } else {
        seq![s.take(ts[0].len as int)].add(slices(s.skip(ts[0].len as int), ts.drop_first()))
    }
}

/// From any position on, the tokens lie end to end and cover the rest of the
/// text: their lengths add up to what is left, and the pieces they cut off,
/// put together again, are the rest of the text.
pub proof fn lemma_partition_from(s: Seq<char>, i: int)
    requires
        0 <= i <= s.len() <= usize::MAX,
    ensures
        total_len(tokens_from(s, i)) == s.len() - i,
        slices(s.skip(i), tokens_from(s, i)).flatten() == s.skip(i),
    decreases s.len() - i,
{
    let ts = tokens_from(s, i);
    if i < s.len() {
        lemma_token_bounds(s, i);
        let end = token_at(s, i).1;
        let rest = tokens_from(s, end);
        lemma_partition_from(s, end);
        assert(ts.drop_first() =~= rest);
        assert(s.skip(i).skip(end - i) =~= s.skip(end));
        let pieces = slices(s.skip(i), ts);
        assert(pieces.drop_first() =~= slices(s.skip(end), rest));
        assert(pieces.flatten() =~= s.skip(i));
    } else {
        assert(s.skip(i) =~= Seq::<char>::empty());
    }
}

/// Cutting a text by the lengths of its tokens, one after another, and putting
/// the pieces together again gives the text back: the tokens leave no gap and
/// do not overlap.
pub proof fn lemma_partition(s: Seq<char>)
    requires
        s.len() <= usize::MAX,
    ensures
        total_len(tokens(s)) == s.len(),
        slices(s, tokens(s)).flatten() == s,
{
    lemma_partition_from(s, 0);
    assert(s.skip(0) =~= s);
}

/// Every token holds at least one character, so from any position on there
/// are no more tokens than characters: asking for tokens comes to an end.
pub proof fn lemma_progress(s: Seq<char>, i: int)
    requires
        0 <= i <= s.len() <= usize::MAX,
    ensures
        forall|k: int|
            0 <= k < tokens_from(s, i).len() ==> (#[trigger] tokens_from(s, i)[k]).len >= 1,
        tokens_from(s, i).len() <= s.len() - i,
    decreases s.len() - i,
{
    let ts = tokens_from(s, i);
    if i < s.len() {
        lemma_token_bounds(s, i);
        let end = token_at(s, i).1;
        let rest = tokens_from(s, end);
        lemma_progress(s, end);
        assert forall|k: int| 0 <= k < ts.len() implies (#[trigger] ts[k]).len >= 1 by {
            if k > 0 {
                assert(ts[k] == rest[k - 1]);
            }
        }
    }
}

} // verus!
