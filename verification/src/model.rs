//! The mathematical model of the lexer: what each scanner consumes and
//! what the whole pass returns, stated over character sequences. The
//! executable scanners in `parser` are proved against these functions.

use vstd::prelude::*;

use crate::token::{CommentKind, LexError, LexItem, LexItemModel};

verus! {

/// The whitespace class: the code points that separate tokens. It is the
/// broad set (Pattern_White_Space), not the ASCII-only notion, and it
/// governs both top-level dispatch and the whitespace-run scanner.
pub open spec fn is_whitespace_char(c: char) -> bool {
    ||| c == ' '
    ||| c == '\n'
    ||| c == '\r'
    ||| c == '\t'
    ||| c == '\u{B}'
    ||| c == '\u{C}'
    ||| c == '\u{85}'
    ||| c == '\u{200E}'
    ||| c == '\u{200F}'
    ||| c == '\u{2028}'
    ||| c == '\u{2029}'
}

/// The first position at or after `i` holding a non-whitespace character,
/// or the end of the input: where the whitespace run beginning at `i` ends.
pub open spec fn whitespace_run_end(s: Seq<char>, i: int) -> int
    recommends
        0 <= i <= s.len(),
    decreases s.len() - i,
{
    if i < s.len() && is_whitespace_char(s[i]) {
        whitespace_run_end(s, i + 1)
    } else {
        i
    }
}

/// The position just past the first line feed at or after `i`, or the end
/// of the input: where a line comment whose body continues at `i` ends.
pub open spec fn line_comment_end(s: Seq<char>, i: int) -> int
    recommends
        0 <= i <= s.len(),
    decreases s.len() - i,
{
    if i >= s.len() {
        i
    } else if s[i] == '\n' {
        i + 1
    } else {
        line_comment_end(s, i + 1)
    }
}

/// The position just past the first `*/` found scanning from `i`, or
/// `None` when the input ends first: where a block comment whose body
/// continues at `i` closes.
pub open spec fn block_comment_close(s: Seq<char>, i: int) -> Option<int>
    recommends
        0 <= i <= s.len(),
    decreases s.len() - i,
{
    if i >= s.len() {
        None
    } else if s[i] == '*' && i + 1 < s.len() && s[i + 1] == '/' {
        Some(i + 2)
    } else {
        block_comment_close(s, i + 1)
    }
}

/// The comment classifier's decision for the `/` at position `i`: the kind
/// of comment that starts there together with the position just past it,
/// or the error that the opening is reported with.
///
/// After `//`, a third `/` makes the comment a documentation comment only
/// when the character after it is in the whitespace class; three slashes
/// followed by anything else, and runs of four or more slashes, degrade to
/// an ordinary line comment. The input ending while the kind is still
/// unresolved is an error; so is a lone `/`, and a `/*` that never closes.
pub open spec fn classify_slash(s: Seq<char>, i: int) -> Result<(CommentKind, int), LexError>
    recommends
        0 <= i < s.len(),
        s[i] == '/',
{
    if s.len() <= i + 1 {
        Err(LexError::UnexpectedEndOfInput(s.len() as usize))
    } else if s[i + 1] == '*' {
        match block_comment_close(s, i + 2) {
            Some(e) => Ok((CommentKind::Multiline, e)),
            None => Err(LexError::UnterminatedBlockComment(i as usize)),
        }
    } else if s[i + 1] == '/' {
        if s.len() <= i + 2 {
            Err(LexError::UnexpectedEndOfInput(s.len() as usize))
        } else if s[i + 2] == '/' {
            if s.len() <= i + 3 {
                Err(LexError::UnexpectedEndOfInput(s.len() as usize))
            } else if is_whitespace_char(s[i + 3]) {
                Ok((CommentKind::OuterDoc, line_comment_end(s, i + 3)))
            } else {
                Ok((CommentKind::Single, line_comment_end(s, i + 3)))
            }
        } else {
            Ok((CommentKind::Single, line_comment_end(s, i + 2)))
        }
    } else {
        Err(LexError::MalformedCommentOpener(i as usize))
    }
}

/// The token covering `s[start .. end]`, classified as `kind`.
pub open spec fn comment_item(s: Seq<char>, start: int, kind: CommentKind, end: int) -> LexItemModel {
    match kind {
        CommentKind::Single => LexItemModel::SingleComment(s.subrange(start, end)),
        CommentKind::OuterDoc => LexItemModel::OuterLineDocComment(s.subrange(start, end)),
        CommentKind::Multiline => LexItemModel::MultilineComment(s.subrange(start, end)),
    }
}

/// Prefixes `ts` onto a lexing outcome: a success gains the tokens in
/// front, an error stands unchanged.
pub open spec fn prepend_items(
    ts: Seq<LexItemModel>,
    rest: Result<Seq<LexItemModel>, LexError>,
) -> Result<Seq<LexItemModel>, LexError> {
    match rest {
        Ok(more) => Ok(ts + more),
        Err(e) => Err(e),
    }
}

/// The abstract form of a produced token vector.
pub open spec fn models_of(items: Seq<LexItem>) -> Seq<LexItemModel> {
    items.map_values(|it: LexItem| it@)
}

/// What lexing the input from position `i` onward returns: the token
/// sequence covering `s[i ..]` when every run is well formed, or the
/// first error met. This is the dispatcher's contract in one function:
/// a whitespace-class character opens a maximal whitespace run, a `/`
/// opens whatever the classifier decides, anything else is rejected
/// where it stands, and the exhausted input yields no further tokens.
pub open spec fn spec_lex(s: Seq<char>, i: int) -> Result<Seq<LexItemModel>, LexError>
    recommends
        0 <= i <= s.len(),
    decreases s.len() - i,
{
    if i < 0 || s.len() <= i {
        Ok(Seq::empty())
    } else if is_whitespace_char(s[i]) {
        proof {
            lemma_whitespace_run_end_bounds(s, i);
        }
        let e = whitespace_run_end(s, i);
        prepend_items(
            seq![LexItemModel::WhiteSpace(s.subrange(i, e))],
            spec_lex(s, e),
        )
    } else if s[i] == '/' {
        match classify_slash(s, i) {
            Ok((kind, e)) => {
                proof {
                    lemma_classify_slash_bounds(s, i);
                }
                prepend_items(seq![comment_item(s, i, kind, e)], spec_lex(s, e))
            },
            Err(e) => Err(e),
        }
    } else {
        Err(LexError::UnrecognizedCharacter(s[i], i as usize))
    }
}

/// A whitespace run neither runs past the end of the input nor fails to
/// advance over its opening whitespace character.
pub proof fn lemma_whitespace_run_end_bounds(s: Seq<char>, i: int)
    requires
        0 <= i <= s.len(),
    ensures
        i <= whitespace_run_end(s, i) <= s.len(),
        i < s.len() && is_whitespace_char(s[i]) ==> i < whitespace_run_end(s, i),
    decreases s.len() - i,
{
    if i < s.len() && is_whitespace_char(s[i]) {
        lemma_whitespace_run_end_bounds(s, i + 1);
    }
}

/// The characters a whitespace run covers are whitespace, and the
/// character at its end, when there is one, is not.
pub proof fn lemma_whitespace_run_end_chars(s: Seq<char>, i: int)
    requires
        0 <= i <= s.len(),
    ensures
        forall|j: int| i <= j < whitespace_run_end(s, i) ==> is_whitespace_char(s[j]),
        whitespace_run_end(s, i) < s.len() ==> !is_whitespace_char(s[whitespace_run_end(s, i)]),
    decreases s.len() - i,
{
    if i < s.len() && is_whitespace_char(s[i]) {
        lemma_whitespace_run_end_chars(s, i + 1);
        lemma_whitespace_run_end_bounds(s, i + 1);
    }
}

/// A line comment ends no earlier than it continues and no later than the
/// input does.
pub proof fn lemma_line_comment_end_bounds(s: Seq<char>, i: int)
    requires
        0 <= i <= s.len(),
    ensures
        i <= line_comment_end(s, i) <= s.len(),
    decreases s.len() - i,
{
    if i < s.len() && s[i] != '\n' {
        lemma_line_comment_end_bounds(s, i + 1);
    }
}

/// A block comment that closes does so past at least the two characters
/// of the closing delimiter, and within the input.
pub proof fn lemma_block_comment_close_bounds(s: Seq<char>, i: int)
    requires
        0 <= i <= s.len(),
    ensures
        match block_comment_close(s, i) {
            Some(e) => i + 2 <= e <= s.len(),
            None => true,
        },
    decreases s.len() - i,
{
    if i < s.len() && !(s[i] == '*' && i + 1 < s.len() && s[i + 1] == '/') {
        lemma_block_comment_close_bounds(s, i + 1);
    }
}

/// A comment the classifier accepts ends past its opening `/` and within
/// the input.
pub proof fn lemma_classify_slash_bounds(s: Seq<char>, i: int)
    requires
        0 <= i < s.len(),
    ensures
        match classify_slash(s, i) {
            Ok((kind, e)) => i < e <= s.len(),
            Err(_) => true,
        },
{
    if i + 1 < s.len() {
        if s[i + 1] == '*' {
            lemma_block_comment_close_bounds(s, i + 2);
        } else if s[i + 1] == '/' {
            if i + 2 < s.len() {
                if s[i + 2] == '/' {
                    if i + 3 < s.len() {
                        lemma_line_comment_end_bounds(s, i + 3);
                    }
                } else {
                    lemma_line_comment_end_bounds(s, i + 2);
                }
            }
        }
    }
}

} // verus!
