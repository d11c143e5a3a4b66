//! The executable lexer: a dispatcher and one scanner per token kind, all
//! working over a shared forward-only position cursor into the input and
//! proved against the model in `model`.

use vstd::prelude::*;
use vstd::string::{StrSliceExecFns, StringExecFns};

use crate::model::{
    block_comment_close, classify_slash, comment_item, is_whitespace_char,
    lemma_block_comment_close_bounds, lemma_classify_slash_bounds,
    lemma_whitespace_run_end_bounds, line_comment_end, models_of, prepend_items, spec_lex,
    whitespace_run_end,
};
use crate::token::{CommentKind, LexError, LexItem, LexItemModel};

verus! {

/// Whether `c` belongs to the whitespace class that separates tokens.
pub fn is_whitespace_character(c: char) -> (b: bool)
    ensures
        b == is_whitespace_char(c),
{
    c == ' ' || c == '\n' || c == '\r' || c == '\t' || c == '\u{B}' || c == '\u{C}'
        || c == '\u{85}' || c == '\u{200E}' || c == '\u{200F}' || c == '\u{2028}'
        || c == '\u{2029}'
}

/// The lexer. It holds no state: each call is a self-contained pass over
/// its input, and the cursor lives in the call.
pub struct Parser {}

impl Parser {
    /// Partitions `code` into whitespace runs and comments, in order, or
    /// returns the first error met. On success the tokens cover the whole
    /// input; on failure no tokens are returned.
    pub fn lex(&self, code: &str) -> (r: Result<Vec<LexItem>, LexError>)
        ensures
            match r {
                Ok(items) => spec_lex(code@, 0) == Ok::<Seq<LexItemModel>, LexError>(
                    models_of(items@),
                ),
                Err(e) => spec_lex(code@, 0) == Err::<Seq<LexItemModel>, LexError>(e),
            },
    {
        let ghost s = code@;
        let mut result: Vec<LexItem> = Vec::new();
        let n = code.unicode_len();
        let mut pos: usize = 0;
        proof {
            lemma_prepend_empty(s, spec_lex(s, 0));
        }
        while pos < n
            invariant
                pos <= n,
                n as nat == s.len(),
                s == code@,
                spec_lex(s, 0) == prepend_items(models_of(result@), spec_lex(s, pos as int)),
            decreases n - pos,
        {
            let c = code.get_char(pos);
            if is_whitespace_character(c) {
                let ghost prior = result@;
                let (item, end) = self.lex_whitespace(code, pos);
                result.push(item);
                proof {
                    lemma_lex_take_token(s, prior, item, pos as int, end as int);
                }
                pos = end;
            } else if c == '/' {
                match self.lex_forward_slash(code, pos) {
                    Ok(item_end) => {
                        let (item, end) = item_end;
                        let ghost prior = result@;
                        result.push(item);
                        proof {
                            lemma_classify_slash_bounds(s, pos as int);
                            lemma_lex_take_token(s, prior, item, pos as int, end as int);
                        }
                        pos = end;
                    },
                    Err(e) => {
                        return Err(e);
                    },
                }
            } else {
                return Err(LexError::UnrecognizedCharacter(c, pos));
            }
        }
        proof {
            assert(models_of(result@) + Seq::<LexItemModel>::empty() =~= models_of(result@));
        }
        Ok(result)
    }

    /// Consumes the maximal run of whitespace-class characters beginning
    /// at `start` and returns it as one token together with the position
    /// just past it. Never consumes a non-whitespace character, and never
    /// fails.
    pub fn lex_whitespace(&self, code: &str, start: usize) -> (r: (LexItem, usize))
        requires
            start < code@.len(),
            is_whitespace_char(code@[start as int]),
        ensures
            start < r.1 <= code@.len(),
            r.1 as int == whitespace_run_end(code@, start as int),
            r.0@ == LexItemModel::WhiteSpace(code@.subrange(start as int, r.1 as int)),
    {
        let n = code.unicode_len();
        let mut end: usize = start;
        loop
            invariant
                start <= end <= n,
                n as nat == code@.len(),
                start < code@.len(),
                whitespace_run_end(code@, start as int) == whitespace_run_end(code@, end as int),
            ensures
                start <= end <= n,
                end as int == whitespace_run_end(code@, start as int),
            decreases n - end,
        {
            if end == n {
                break;
            }
            let c = code.get_char(end);
            if !is_whitespace_character(c) {
                break;
            }
            end = end + 1;
        }
        proof {
            lemma_whitespace_run_end_bounds(code@, start as int);
        }
        let text = code.substring_char(start, end).to_owned();
        (LexItem::WhiteSpace(text), end)
    }

    /// Classifies and consumes the comment opened by the `/` at `start`:
    /// `/*` opens a block comment, `//` a line comment, `///` followed by
    /// a whitespace-class character a documentation comment, and longer
    /// slash runs an ordinary line comment again. Returns the token with
    /// the position just past it, or the error the construct is rejected
    /// with.
    pub fn lex_forward_slash(&self, code: &str, start: usize) -> (r: Result<
        (LexItem, usize),
        LexError,
    >)
        requires
            start < code@.len(),
            code@[start as int] == '/',
        ensures
            match r {
                Ok(item_end) => classify_slash(code@, start as int) matches Ok((kind, e))
                    && item_end.1 as int == e && item_end.0@ == comment_item(
                    code@,
                    start as int,
                    kind,
                    e,
                ),
                Err(err) => classify_slash(code@, start as int) == Err::<
                    (CommentKind, int),
                    LexError,
                >(err),
            },
    {
        let n = code.unicode_len();
        if start + 1 >= n {
            return Err(LexError::UnexpectedEndOfInput(n));
        }
        let c2 = code.get_char(start + 1);
        if c2 == '*' {
            match self.get_multiline_comment_text(code, start + 2) {
                Some(end) => {
                    proof {
                        lemma_block_comment_close_bounds(code@, start as int + 2);
                    }
                    let text = code.substring_char(start, end).to_owned();
                    Ok((LexItem::MultilineComment(text), end))
                },
                None => Err(LexError::UnterminatedBlockComment(start)),
            }
        } else if c2 == '/' {
            if start + 2 >= n {
                return Err(LexError::UnexpectedEndOfInput(n));
            }
            let c3 = code.get_char(start + 2);
            if c3 == '/' {
                self.lex_at_least_3_slashes(code, start)
            } else {
                let mut comment = code.substring_char(start, start + 2).to_owned();
                let end = self.get_comment_text(&mut comment, code, start + 2);
                proof {
                    assert(code@.subrange(start as int, end as int) =~= code@.subrange(
                        start as int,
                        start as int + 2,
                    ) + code@.subrange(start as int + 2, end as int));
                }
                Ok((LexItem::SingleComment(comment), end))
            }
        } else {
            Err(LexError::MalformedCommentOpener(start))
        }
    }

    /// Consumes a comment already known to open with three slashes: the
    /// comment runs to the end of its line, and is a documentation comment
    /// exactly when the character after the third slash is in the
    /// whitespace class.
    pub fn lex_at_least_3_slashes(&self, code: &str, start: usize) -> (r: Result<
        (LexItem, usize),
        LexError,
    >)
        requires
            start + 2 < code@.len(),
            code@[start as int] == '/',
            code@[start as int + 1] == '/',
            code@[start as int + 2] == '/',
        ensures
            match r {
                Ok(item_end) => classify_slash(code@, start as int) matches Ok((kind, e))
                    && item_end.1 as int == e && item_end.0@ == comment_item(
                    code@,
                    start as int,
                    kind,
                    e,
                ),
                Err(err) => classify_slash(code@, start as int) == Err::<
                    (CommentKind, int),
                    LexError,
                >(err),
            },
    {
        let n = code.unicode_len();
        if start + 3 >= n {
            return Err(LexError::UnexpectedEndOfInput(n));
        }
        let c4 = code.get_char(start + 3);
        let mut comment = code.substring_char(start, start + 3).to_owned();
        let end = self.get_comment_text(&mut comment, code, start + 3);
        proof {
            assert(code@.subrange(start as int, end as int) =~= code@.subrange(
                start as int,
                start as int + 3,
            ) + code@.subrange(start as int + 3, end as int));
        }
        if is_whitespace_character(c4) {
            Ok((LexItem::OuterLineDocComment(comment), end))
        } else {
            Ok((LexItem::SingleComment(comment), end))
        }
    }

    /// Appends to `comment` the characters from `start` through the end of
    /// the line: everything up to and including the first line feed, or
    /// the rest of the input when no line feed follows. Never fails.
    pub fn get_comment_text(&self, comment: &mut String, code: &str, start: usize) -> (end: usize)
        requires
            start <= code@.len(),
        ensures
            start <= end <= code@.len(),
            end as int == line_comment_end(code@, start as int),
            final(comment)@ == old(comment)@ + code@.subrange(start as int, end as int),
    {
        let n = code.unicode_len();
        let mut end: usize = start;
        loop
            invariant_except_break
                line_comment_end(code@, start as int) == line_comment_end(code@, end as int),
            invariant
                start <= end <= n,
                n as nat == code@.len(),
            ensures
                start <= end <= n,
                end as int == line_comment_end(code@, start as int),
            decreases n - end,
        {
            if end == n {
                break;
            }
            let c = code.get_char(end);
            end = end + 1;
            if c == '\n' {
                break;
            }
        }
        comment.append(code.substring_char(start, end));
        end
    }

    /// Scans from `start` for the first closing `*/` and returns the
    /// position just past it, or `None` when the input ends before the
    /// block comment closes.
    pub fn get_multiline_comment_text(&self, code: &str, start: usize) -> (r: Option<usize>)
        requires
            start <= code@.len(),
        ensures
            match r {
                Some(end) => block_comment_close(code@, start as int) == Some(end as int),
                None => block_comment_close(code@, start as int) is None,
            },
    {
        let n = code.unicode_len();
        let mut j: usize = start;
        loop
            invariant
                start <= j <= n,
                n as nat == code@.len(),
                block_comment_close(code@, start as int) == block_comment_close(code@, j as int),
            decreases n - j,
        {
            if j == n {
                return None;
            }
            let c = code.get_char(j);
            if c == '*' && j + 1 < n {
                let c2 = code.get_char(j + 1);
                if c2 == '/' {
                    return Some(j + 2);
                }
            }
            j = j + 1;
        }
    }
}

/// Prefixing no tokens changes no outcome.
proof fn lemma_prepend_empty(s: Seq<char>, r: Result<Seq<LexItemModel>, LexError>)
    ensures
        r == prepend_items(Seq::<LexItemModel>::empty(), r),
{
    match r {
        Ok(items) => {
            assert(Seq::<LexItemModel>::empty() + items =~= items);
        },
        Err(_) => {},
    }
}

/// Prefixing token runs one after the other is prefixing them together.
proof fn lemma_prepend_items_assoc(
    a: Seq<LexItemModel>,
    b: Seq<LexItemModel>,
    r: Result<Seq<LexItemModel>, LexError>,
)
    ensures
        prepend_items(a, prepend_items(b, r)) == prepend_items(a + b, r),
{
    match r {
        Ok(items) => {
            assert(a + (b + items) =~= (a + b) + items);
        },
        Err(_) => {},
    }
}

/// Taking one token whose span runs from `i` to `e` carries the
/// dispatcher's invariant from cursor position `i` to `e`: the input
/// lexes from the start exactly when it lexes from `e` behind the tokens
/// taken so far.
proof fn lemma_lex_take_token(
    s: Seq<char>,
    prior: Seq<LexItem>,
    item: LexItem,
    i: int,
    e: int,
)
    requires
        spec_lex(s, 0) == prepend_items(models_of(prior), spec_lex(s, i)),
        spec_lex(s, i) == prepend_items(seq![item@], spec_lex(s, e)),
    ensures
        spec_lex(s, 0) == prepend_items(models_of(prior.push(item)), spec_lex(s, e)),
{
    lemma_prepend_items_assoc(models_of(prior), seq![item@], spec_lex(s, e));
    assert(models_of(prior.push(item)) =~= models_of(prior) + seq![item@]);
}

} // verus!
