use vstd::prelude::*;

verus! {

/// A classified, text-bearing unit of lexical output. The text of each
/// variant is the exact run of input characters the token covers,
/// delimiters included, so that concatenating the texts of a token
/// sequence reproduces the input they were lexed from.
#[derive(Debug, Clone)]
pub enum LexItem {
    /// A maximal run of whitespace-class characters.
    WhiteSpace(String),
    /// A comment from `//` through the end of its line, newline included
    /// when present.
    SingleComment(String),
    /// A documentation comment: `///` followed by a whitespace-class
    /// character, through the end of its line.
    OuterLineDocComment(String),
    /// A block comment from `/*` through the matching `*/`.
    MultilineComment(String),
}

/// The abstract form of a token: the same four variants, carrying the
/// covered text as a mathematical character sequence.
pub enum LexItemModel {
    WhiteSpace(Seq<char>),
    SingleComment(Seq<char>),
    OuterLineDocComment(Seq<char>),
    MultilineComment(Seq<char>),
}

impl View for LexItem {
    type V = LexItemModel;

    open spec fn view(&self) -> LexItemModel {
        match self {
            LexItem::WhiteSpace(t) => LexItemModel::WhiteSpace(t@),
            LexItem::SingleComment(t) => LexItemModel::SingleComment(t@),
            LexItem::OuterLineDocComment(t) => LexItemModel::OuterLineDocComment(t@),
            LexItem::MultilineComment(t) => LexItemModel::MultilineComment(t@),
        }
    }
}

/// The text a token covers, independent of its classification.
pub open spec fn model_text(t: LexItemModel) -> Seq<char> {
    match t {
        LexItemModel::WhiteSpace(s) => s,
        LexItemModel::SingleComment(s) => s,
        LexItemModel::OuterLineDocComment(s) => s,
        LexItemModel::MultilineComment(s) => s,
    }
}

/// The ways lexing can fail. Positions count Unicode scalar values from
/// the start of the input, the first character being position 0.
#[derive(Debug, Clone, Copy, PartialEq, Eq)]
pub enum LexError {
    /// A character that opens neither a whitespace run nor a comment was
    /// met at the given position; it is carried along with its position.
    UnrecognizedCharacter(char, usize),
    /// The `/` at the given position was followed by neither `/` nor `*`.
    MalformedCommentOpener(usize),
    /// The input ended, at the given position, while the kind of comment
    /// being opened was still unresolved.
    UnexpectedEndOfInput(usize),
    /// The `/*` whose `/` stands at the given position was never matched
    /// by a closing `*/`.
    UnterminatedBlockComment(usize),
}

/// The kind of comment the classifier decided on after a leading `/`.
pub enum CommentKind {
    Single,
    OuterDoc,
    Multiline,
}

} // verus!
