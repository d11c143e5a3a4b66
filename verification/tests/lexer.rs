use comment_lexer::parser::Parser;
use comment_lexer::token::{LexError, LexItem};

#[test]
fn test_lex_whitespace() {
    let parser = Parser {};
    let mut whitespace = String::from(" \n\r\t");
    whitespace.push('\x0B');
    whitespace.push('\x0C');
    whitespace.push('\u{85}');
    whitespace.push('\u{200E}');
    whitespace.push('\u{200F}');
    whitespace.push('\u{2028}');
    whitespace.push('\u{2029}');
    let (item, _end) = parser.lex_whitespace(&whitespace, 0);
    if let LexItem::WhiteSpace(spaces) = item {
        assert_eq!(spaces, whitespace.to_string());
    } else {
        panic!("Call to lex_whitespace did not return a WhiteSpace.");
    }
}

#[test]
fn test_lex() {
    let parser = Parser {};
    let code = String::from(" \n\r\t// A comment\n");
    let items = parser.lex(&code).unwrap();
    assert_eq!(items.len(), 2);
    if let LexItem::WhiteSpace(wspace) = items.get(0).unwrap() {
        assert_eq!(wspace.as_str(), " \n\r\t");
    } else {
        panic!("Call to lex did not return a WhiteSpace.");
    }
    if let LexItem::SingleComment(comment) = items.get(1).unwrap() {
        assert_eq!(comment.as_str(), "// A comment\n");
    } else {
        panic!("Call to lex did not return a SingleComment.");
    }
}

#[test]
fn test_lex_single_comment_space() {
    let parser = Parser {};
    let comment = String::from("// A comment  \n");
    let comm = comment.clone() + " ";
    if let Ok((LexItem::SingleComment(comment2), _end)) = parser.lex_forward_slash(&comm, 0) {
        assert_eq!(comment, comment2);
    } else {
        panic!("Call to lex_forward_slash did not return a SingleComment.");
    }
}

#[test]
fn test_lex_single_comment_tab() {
    let parser = Parser {};
    let comment = String::from("//\tA comment  \n");
    let comm = comment.clone() + " ";
    if let Ok((LexItem::SingleComment(comment2), _end)) = parser.lex_forward_slash(&comm, 0) {
        assert_eq!(comment, comment2);
    } else {
        panic!("Call to lex_forward_slash did not return a SingleComment.");
    }
}

#[test]
fn test_lex_single_comment_new_line() {
    let parser = Parser {};
    let comment = String::from("//\n");
    let comm = comment.clone() + " ";
    if let Ok((LexItem::SingleComment(comment2), _end)) = parser.lex_forward_slash(&comm, 0) {
        assert_eq!(comment, comment2);
    } else {
        panic!("Call to lex_forward_slash did not return a SingleComment.");
    }
}

#[test]
fn test_lex_single_comment_no_whitespace() {
    let parser = Parser {};
    let comment = String::from("//a");
    if let Ok((LexItem::SingleComment(comment2), _end)) = parser.lex_forward_slash(&comment, 0) {
        assert_eq!(comment, comment2);
    } else {
        panic!("Call to lex_forward_slash did not return a SingleComment.");
    }
}

#[test]
fn test_lex_outer_linedoc_comment() {
    let parser = Parser {};
    let comment = String::from("/// A Doc comment  \n");
    if let Ok((LexItem::OuterLineDocComment(comment2), _end)) =
        parser.lex_forward_slash(&comment, 0)
    {
        assert_eq!(comment, comment2);
    } else {
        panic!("Call to lex_forward_slash did not return a OuterLineDocComment.");
    }
}

#[test]
fn test_multiline_comment() {
    let parser = Parser {};
    let comment = String::from("/* A Doc comment  \n * Second line*/");
    if let Ok((LexItem::MultilineComment(comment2), _end)) = parser.lex_forward_slash(&comment, 0)
    {
        assert_eq!(comment, comment2);
    } else {
        panic!("Call to lex_forward_slash did not return a MultilineComment.");
    }
}

#[test]
fn test_4_slashes() {
    let parser = Parser {};
    let comment = String::from("////\n");
    if let Ok((LexItem::SingleComment(comment2), _end)) = parser.lex_forward_slash(&comment, 0) {
        assert_eq!(comment, comment2);
    } else {
        panic!("Call to lex_4_slashes did not return a SingleComment.");
    }
}

fn item_text(item: &LexItem) -> &str {
    match item {
        LexItem::WhiteSpace(t) => t,
        LexItem::SingleComment(t) => t,
        LexItem::OuterLineDocComment(t) => t,
        LexItem::MultilineComment(t) => t,
    }
}

#[test]
fn test_round_trip_mixed_input() {
    let parser = Parser {};
    let code = " \t// line\n/// doc\n/* block\n */\u{2028}////\n//a";
    let items = parser.lex(code).unwrap();
    let mut rebuilt = String::new();
    for item in &items {
        rebuilt.push_str(item_text(item));
    }
    assert_eq!(rebuilt, code);
}

#[test]
fn test_doc_comment_requires_whitespace_after_marker() {
    let parser = Parser {};
    let items = parser.lex("///a").unwrap();
    assert_eq!(items.len(), 1);
    if let LexItem::SingleComment(text) = items.get(0).unwrap() {
        assert_eq!(text.as_str(), "///a");
    } else {
        panic!("Three slashes before a non-whitespace character must degrade to a SingleComment.");
    }
}

#[test]
fn test_doc_comment_with_tab_separator() {
    let parser = Parser {};
    let items = parser.lex("///\tx\n").unwrap();
    assert_eq!(items.len(), 1);
    assert!(matches!(items.get(0).unwrap(), LexItem::OuterLineDocComment(_)));
}

#[test]
fn test_doc_comment_stops_at_newline() {
    let parser = Parser {};
    let r = parser.lex("///\nx");
    assert_eq!(r.unwrap_err(), LexError::UnrecognizedCharacter('x', 4));
}

#[test]
fn test_four_slashes_whole_input() {
    let parser = Parser {};
    let items = parser.lex("////\n").unwrap();
    assert_eq!(items.len(), 1);
    if let LexItem::SingleComment(text) = items.get(0).unwrap() {
        assert_eq!(text.as_str(), "////\n");
    } else {
        panic!("Four slashes must degrade to a SingleComment.");
    }
}

#[test]
fn test_block_comment_whole_input() {
    let parser = Parser {};
    let code = "/* A Doc comment  \n * Second line*/";
    let items = parser.lex(code).unwrap();
    assert_eq!(items.len(), 1);
    if let LexItem::MultilineComment(text) = items.get(0).unwrap() {
        assert_eq!(text.as_str(), code);
    } else {
        panic!("Call to lex did not return a MultilineComment.");
    }
}

#[test]
fn test_line_comment_unterminated_by_newline() {
    let parser = Parser {};
    let items = parser.lex("//a").unwrap();
    assert_eq!(items.len(), 1);
    if let LexItem::SingleComment(text) = items.get(0).unwrap() {
        assert_eq!(text.as_str(), "//a");
    } else {
        panic!("Call to lex did not return a SingleComment.");
    }
}

#[test]
fn test_unterminated_block_comment() {
    let parser = Parser {};
    let r = parser.lex("/* never closes");
    assert_eq!(r.unwrap_err(), LexError::UnterminatedBlockComment(0));
}

#[test]
fn test_unterminated_block_comment_trailing_star() {
    let parser = Parser {};
    let r = parser.lex("/* almost *");
    assert_eq!(r.unwrap_err(), LexError::UnterminatedBlockComment(0));
}

#[test]
fn test_block_comment_star_star_slash() {
    let parser = Parser {};
    let items = parser.lex("/***/").unwrap();
    assert_eq!(items.len(), 1);
    if let LexItem::MultilineComment(text) = items.get(0).unwrap() {
        assert_eq!(text.as_str(), "/***/");
    } else {
        panic!("Call to lex did not return a MultilineComment.");
    }
}

#[test]
fn test_unrecognized_character() {
    let parser = Parser {};
    let r = parser.lex("x");
    assert_eq!(r.unwrap_err(), LexError::UnrecognizedCharacter('x', 0));
}

#[test]
fn test_unrecognized_character_after_whitespace() {
    let parser = Parser {};
    let r = parser.lex(" \tz");
    assert_eq!(r.unwrap_err(), LexError::UnrecognizedCharacter('z', 2));
}

#[test]
fn test_malformed_comment_opener() {
    let parser = Parser {};
    let r = parser.lex("/a");
    assert_eq!(r.unwrap_err(), LexError::MalformedCommentOpener(0));
}

#[test]
fn test_malformed_comment_opener_direct() {
    let parser = Parser {};
    let r = parser.lex_forward_slash("/a", 0);
    assert_eq!(r.unwrap_err(), LexError::MalformedCommentOpener(0));
}

#[test]
fn test_unexpected_end_after_one_slash() {
    let parser = Parser {};
    let r = parser.lex("/");
    assert_eq!(r.unwrap_err(), LexError::UnexpectedEndOfInput(1));
}

#[test]
fn test_unexpected_end_after_two_slashes() {
    let parser = Parser {};
    let r = parser.lex("//");
    assert_eq!(r.unwrap_err(), LexError::UnexpectedEndOfInput(2));
}

#[test]
fn test_unexpected_end_after_three_slashes() {
    let parser = Parser {};
    let r = parser.lex("///");
    assert_eq!(r.unwrap_err(), LexError::UnexpectedEndOfInput(3));
}

#[test]
fn test_whitespace_run_mixing_code_points_is_one_token() {
    let parser = Parser {};
    let code = " \t\u{2028}\u{85}\r\n";
    let items = parser.lex(code).unwrap();
    assert_eq!(items.len(), 1);
    if let LexItem::WhiteSpace(text) = items.get(0).unwrap() {
        assert_eq!(text.as_str(), code);
    } else {
        panic!("Call to lex did not return a WhiteSpace.");
    }
}

#[test]
fn test_empty_input() {
    let parser = Parser {};
    let items = parser.lex("").unwrap();
    assert_eq!(items.len(), 0);
}

#[test]
fn test_get_comment_text_appends_through_newline() {
    let parser = Parser {};
    let mut comment = String::from("//");
    let end = parser.get_comment_text(&mut comment, "//abc\ndef", 2);
    assert_eq!(end, 6);
    assert_eq!(comment.as_str(), "//abc\n");
}

#[test]
fn test_get_comment_text_stops_at_end_of_input() {
    let parser = Parser {};
    let mut comment = String::from("//");
    let end = parser.get_comment_text(&mut comment, "//abc", 2);
    assert_eq!(end, 5);
    assert_eq!(comment.as_str(), "//abc");
}

#[test]
fn test_get_multiline_comment_text_finds_close() {
    let parser = Parser {};
    assert_eq!(parser.get_multiline_comment_text("/*ab*/ tail", 2), Some(6));
}

#[test]
fn test_get_multiline_comment_text_without_close() {
    let parser = Parser {};
    assert_eq!(parser.get_multiline_comment_text("/*ab*", 2), None);
}
