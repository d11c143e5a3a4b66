//! Laws that hold of the lexer as a whole, proved over the model in
//! `model`: losslessness of the token sequence, maximality of whitespace
//! runs, and rejection of characters outside the recognized set.

use vstd::prelude::*;

use crate::model::{
    classify_slash, comment_item, is_whitespace_char, lemma_classify_slash_bounds,
    lemma_whitespace_run_end_bounds, lemma_whitespace_run_end_chars, spec_lex,
    whitespace_run_end,
};
use crate::token::{CommentKind, LexError, LexItemModel};

verus! {

/// The concatenation of the texts the tokens cover, in order.
pub open spec fn items_text(ts: Seq<LexItemModel>) -> Seq<char>
    decreases ts.len(),
{
    if ts.len() == 0 {
        Seq::empty()
    } else {
        crate::token::model_text(ts[0]) + items_text(ts.drop_first())
    }
}

/// A whitespace token carries at least one character, every one of them in
/// the whitespace class.
pub open spec fn whitespace_token_well_formed(t: LexItemModel) -> bool {
    t is WhiteSpace ==> {
        let txt = crate::token::model_text(t);
        txt.len() > 0 && forall|j: int| 0 <= j < txt.len() ==> is_whitespace_char(#[trigger] txt[j])
    }
}

/// No two whitespace tokens stand next to each other: a whitespace run is
/// never split across tokens.
pub open spec fn no_adjacent_whitespace(toks: Seq<LexItemModel>) -> bool {
    forall|k: int|
        0 <= k && k + 1 < toks.len() ==> !((#[trigger] toks[k]) is WhiteSpace
            && toks[k + 1] is WhiteSpace)
}

/// Losslessness: on an input made only of well-formed whitespace and
/// comment runs — one that lexes without error — concatenating the texts
/// of the tokens, in order, reproduces the input exactly.
pub proof fn lemma_lex_round_trip(s: Seq<char>)
    requires
        spec_lex(s, 0) is Ok,
    ensures
        items_text(spec_lex(s, 0)->Ok_0) == s,
{
    lemma_lex_round_trip_from(s, 0);
    assert(s.subrange(0, s.len() as int) =~= s);
}

/// Losslessness from any cursor position: the tokens lexed from `i`
/// onward cover exactly the rest of the input.
proof fn lemma_lex_round_trip_from(s: Seq<char>, i: int)
    requires
        0 <= i <= s.len(),
        spec_lex(s, i) is Ok,
    ensures
        items_text(spec_lex(s, i)->Ok_0) == s.subrange(i, s.len() as int),
    decreases s.len() - i,
{
    if s.len() <= i {
        assert(items_text(spec_lex(s, i)->Ok_0) =~= s.subrange(i, s.len() as int));
    } else if is_whitespace_char(s[i]) {
        let e = whitespace_run_end(s, i);
        lemma_whitespace_run_end_bounds(s, i);
        lemma_lex_round_trip_from(s, e);
        let tok = LexItemModel::WhiteSpace(s.subrange(i, e));
        let rest = spec_lex(s, e)->Ok_0;
        assert(spec_lex(s, i)->Ok_0 == seq![tok] + rest);
        lemma_items_text_cons(tok, rest);
        assert(s.subrange(i, e) + s.subrange(e, s.len() as int) =~= s.subrange(
            i,
            s.len() as int,
        ));
    } else {
        match classify_slash(s, i) {
            Ok((kind, e)) => {
                lemma_classify_slash_bounds(s, i);
                lemma_lex_round_trip_from(s, e);
                let tok = comment_item(s, i, kind, e);
                let rest = spec_lex(s, e)->Ok_0;
                assert(spec_lex(s, i)->Ok_0 == seq![tok] + rest);
                lemma_items_text_cons(tok, rest);
                assert(crate::token::model_text(tok) == s.subrange(i, e));
                assert(s.subrange(i, e) + s.subrange(e, s.len() as int) =~= s.subrange(
                    i,
                    s.len() as int,
                ));
            },
            Err(_) => {},
        }
    }
}

/// The text of a token sequence starts with the text of its first token.
proof fn lemma_items_text_cons(t: LexItemModel, rest: Seq<LexItemModel>)
    ensures
        items_text(seq![t] + rest) == crate::token::model_text(t) + items_text(rest),
{
    assert((seq![t] + rest)[0] == t);
    assert((seq![t] + rest).drop_first() =~= rest);
}

/// Whitespace runs are lexed whole: in any successful token sequence,
/// every whitespace token is a nonempty run of whitespace-class
/// characters, and no whitespace token is followed by another — a run
/// mixing distinct whitespace code points comes out as one token, never
/// split.
pub proof fn lemma_whitespace_runs_unsplit(s: Seq<char>)
    requires
        spec_lex(s, 0) is Ok,
    ensures
        forall|k: int|
            0 <= k < spec_lex(s, 0)->Ok_0.len() ==> whitespace_token_well_formed(
                #[trigger] spec_lex(s, 0)->Ok_0[k],
            ),
        no_adjacent_whitespace(spec_lex(s, 0)->Ok_0),
{
    lemma_whitespace_runs_unsplit_from(s, 0);
}

/// The same from any cursor position, carrying along that a token lexed
/// at a non-whitespace character is not a whitespace token.
proof fn lemma_whitespace_runs_unsplit_from(s: Seq<char>, i: int)
    requires
        0 <= i <= s.len(),
        spec_lex(s, i) is Ok,
    ensures
        forall|k: int|
            0 <= k < spec_lex(s, i)->Ok_0.len() ==> whitespace_token_well_formed(
                #[trigger] spec_lex(s, i)->Ok_0[k],
            ),
        no_adjacent_whitespace(spec_lex(s, i)->Ok_0),
        i < s.len() && !is_whitespace_char(s[i]) && spec_lex(s, i)->Ok_0.len() > 0 ==> !(spec_lex(
            s,
            i,
        )->Ok_0[0] is WhiteSpace),
    decreases s.len() - i,
{
    let toks = spec_lex(s, i)->Ok_0;
    if s.len() <= i {
        // no tokens: every claim is vacuous
    } else if is_whitespace_char(s[i]) {
        let e = whitespace_run_end(s, i);
        lemma_whitespace_run_end_bounds(s, i);
        lemma_whitespace_run_end_chars(s, i);
        lemma_whitespace_runs_unsplit_from(s, e);
        let tok = LexItemModel::WhiteSpace(s.subrange(i, e));
        let rest = spec_lex(s, e)->Ok_0;
        assert(toks == seq![tok] + rest);
        assert(whitespace_token_well_formed(tok));
        assert forall|k: int| 0 <= k < toks.len() implies whitespace_token_well_formed(
            #[trigger] toks[k],
        ) by {
            if k > 0 {
                assert(toks[k] == rest[k - 1]);
            }
        }
        assert forall|k: int|
            0 <= k && k + 1 < toks.len() implies !((#[trigger] toks[k]) is WhiteSpace && toks[k
            + 1] is WhiteSpace) by {
            if k == 0 {
                // the run is maximal: the rest of the input starts at its
                // end, on a non-whitespace character
                assert(rest.len() > 0);
                assert(e < s.len());
                assert(!is_whitespace_char(s[e]));
                assert(toks[1] == rest[0]);
            } else {
                assert(toks[k] == rest[k - 1]);
                assert(toks[k + 1] == rest[k]);
            }
        }
    } else {
        match classify_slash(s, i) {
            Ok((kind, e)) => {
                lemma_classify_slash_bounds(s, i);
                lemma_whitespace_runs_unsplit_from(s, e);
                let tok = comment_item(s, i, kind, e);
                let rest = spec_lex(s, e)->Ok_0;
                assert(toks == seq![tok] + rest);
                assert(!(tok is WhiteSpace));
                assert forall|k: int| 0 <= k < toks.len() implies whitespace_token_well_formed(
                    #[trigger] toks[k],
                ) by {
                    if k > 0 {
                        assert(toks[k] == rest[k - 1]);
                    }
                }
                assert forall|k: int|
                    0 <= k && k + 1 < toks.len() implies !((#[trigger] toks[k]) is WhiteSpace
                    && toks[k + 1] is WhiteSpace) by {
                    if k > 0 {
                        assert(toks[k] == rest[k - 1]);
                        assert(toks[k + 1] == rest[k]);
                    }
                }
            },
            Err(_) => {},
        }
    }
}

/// Any input that begins with a character outside the whitespace class
/// and other than `/` is rejected where it stands: the whole pass returns
/// exactly the unrecognized-character error for position 0, and no
/// tokens.
pub proof fn lemma_unrecognized_character_rejected(s: Seq<char>)
    requires
        s.len() > 0,
        !is_whitespace_char(s[0]),
        s[0] != '/',
    ensures
        spec_lex(s, 0) == Err::<Seq<LexItemModel>, LexError>(
            LexError::UnrecognizedCharacter(s[0], 0),
        ),
{
}

} // verus!
