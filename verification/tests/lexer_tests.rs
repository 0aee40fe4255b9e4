use nva_lexer::lang_backend::lexer::{Lexer, LexerErrors, Token, Tokens};
use nva_lexer::lang_backend::read_file::{FileInfo, ReadFileErrors};

fn lexer_over(text: &str) -> Box<Lexer> {
    let info = FileInfo { file_length: text.len() as u64, file_data: text.to_string() };
    Lexer::new(Ok(info)).expect("a loaded source always gives a lexer")
}

fn token(kind: Tokens, text: &str) -> Result<Token, LexerErrors> {
    Ok(Token { token_id: kind, token_value: text.to_string() })
}

fn end() -> Result<Token, LexerErrors> {
    token(Tokens::EndOfInput, "")
}

/// Every token up to the end of input, or the first error.
fn all_tokens(text: &str) -> Result<Vec<Token>, LexerErrors> {
    let mut lexer = lexer_over(text);
    let mut out = Vec::new();
    loop {
        let t = lexer.get_next_token()?;
        if t.token_id == Tokens::EndOfInput {
            return Ok(out);
        }
        out.push(t);
    }
}

/// The tokens laid out with one space between them, strings in their quotes.
fn layout(tokens: &[Token]) -> String {
    let mut parts: Vec<String> = Vec::new();
    for t in tokens {
        if t.token_id == Tokens::StringVal {
            parts.push(format!("\"{}\"", t.token_value));
        } else {
            parts.push(t.token_value.clone());
        }
    }
    parts.join(" ")
}

#[test]
fn equal_sign_is_one_token_then_end() {
    let mut lexer = lexer_over("=");
    assert_eq!(lexer.get_next_token(), token(Tokens::Equal, "="));
    assert_eq!(lexer.get_next_token(), end());
}

#[test]
fn at_sign_is_one_token_then_end() {
    let mut lexer = lexer_over("@");
    assert_eq!(lexer.get_next_token(), token(Tokens::VariableDeclaration, "@"));
    assert_eq!(lexer.get_next_token(), end());
}

#[test]
fn quoted_string_keeps_its_blanks_and_loses_its_quotes() {
    let mut lexer = lexer_over("\"hello  wide\tworld\n!\"");
    assert_eq!(lexer.get_next_token(), token(Tokens::StringVal, "hello  wide\tworld\n!"));
    assert_eq!(lexer.get_next_token(), end());
}

#[test]
fn empty_string_is_a_token_with_no_text() {
    let mut lexer = lexer_over("\"\"");
    assert_eq!(lexer.get_next_token(), token(Tokens::StringVal, ""));
    assert_eq!(lexer.get_next_token(), end());
}

#[test]
fn string_may_hold_slashes_and_signs() {
    let mut lexer = lexer_over("\"a / b = @c\" =");
    assert_eq!(lexer.get_next_token(), token(Tokens::StringVal, "a / b = @c"));
    assert_eq!(lexer.get_next_token(), token(Tokens::Equal, "="));
    assert_eq!(lexer.get_next_token(), end());
}

#[test]
fn string_text_is_cut_by_characters_not_bytes() {
    let mut lexer = lexer_over("\"h\u{e9}llo \u{4e16}\u{754c}\" = x");
    assert_eq!(lexer.get_next_token(), token(Tokens::StringVal, "h\u{e9}llo \u{4e16}\u{754c}"));
    assert_eq!(lexer.get_next_token(), token(Tokens::Equal, "="));
    assert_eq!(lexer.get_next_token(), token(Tokens::VariableName, "x"));
    assert_eq!(lexer.get_next_token(), end());
}

#[test]
fn unterminated_string_fails() {
    let mut lexer = lexer_over("\"abc");
    assert_eq!(lexer.get_next_token(), Err(LexerErrors::UnterminatedString(0)));
}

#[test]
fn unterminated_string_reports_the_opening_quote_and_leaves_the_cursor_at_the_end() {
    let mut lexer = lexer_over("x  \"abc def\n");
    assert_eq!(lexer.get_next_token(), token(Tokens::VariableName, "x"));
    assert_eq!(lexer.get_next_token(), Err(LexerErrors::UnterminatedString(3)));
    assert_eq!(lexer.get_next_token(), end());
}

#[test]
fn lone_quote_is_unterminated() {
    let mut lexer = lexer_over("\"");
    assert_eq!(lexer.get_next_token(), Err(LexerErrors::UnterminatedString(0)));
    assert_eq!(lexer.get_next_token(), end());
}

#[test]
fn identifier_at_end_of_input() {
    let mut lexer = lexer_over("hello");
    assert_eq!(lexer.get_next_token(), token(Tokens::VariableName, "hello"));
    assert_eq!(lexer.get_next_token(), end());
}

#[test]
fn identifier_stops_at_each_kind_of_blank() {
    let mut lexer = lexer_over("one two\tthree\nFour");
    assert_eq!(lexer.get_next_token(), token(Tokens::VariableName, "one"));
    assert_eq!(lexer.get_next_token(), token(Tokens::VariableName, "two"));
    assert_eq!(lexer.get_next_token(), token(Tokens::VariableName, "three"));
    assert_eq!(lexer.get_next_token(), token(Tokens::VariableName, "Four"));
    assert_eq!(lexer.get_next_token(), end());
}

#[test]
fn identifier_runs_through_everything_but_blanks() {
    let mut lexer = lexer_over("a=b/c\"d@9 z");
    assert_eq!(lexer.get_next_token(), token(Tokens::VariableName, "a=b/c\"d@9"));
    assert_eq!(lexer.get_next_token(), token(Tokens::VariableName, "z"));
    assert_eq!(lexer.get_next_token(), end());
}

#[test]
fn letters_at_the_edges_of_the_alphabet_begin_identifiers() {
    for word in ["a", "z", "A", "Z"] {
        let mut lexer = lexer_over(word);
        assert_eq!(lexer.get_next_token(), token(Tokens::VariableName, word));
    }
}

#[test]
fn characters_next_to_the_letters_are_invalid() {
    for c in ['`', '{', '[', '0', '_', '-'] {
        let mut lexer = lexer_over(&c.to_string());
        assert_eq!(lexer.get_next_token(), Err(LexerErrors::InvalidToken(c, 0)));
    }
}

#[test]
fn comment_only_source_is_end_of_input() {
    let mut lexer = lexer_over("/ ignore me");
    assert_eq!(lexer.get_next_token(), end());
}

#[test]
fn comment_ends_at_the_newline() {
    let mut lexer = lexer_over("/ first = \"x\n@ / second\n\t/ third\nname");
    assert_eq!(lexer.get_next_token(), token(Tokens::VariableDeclaration, "@"));
    assert_eq!(lexer.get_next_token(), token(Tokens::VariableName, "name"));
    assert_eq!(lexer.get_next_token(), end());
}

#[test]
fn blanks_only_source_is_end_of_input() {
    let mut lexer = lexer_over(" \t\n  \n");
    assert_eq!(lexer.get_next_token(), end());
}

#[test]
fn empty_source_is_end_of_input() {
    let mut lexer = lexer_over("");
    assert_eq!(lexer.get_next_token(), end());
}

#[test]
fn end_of_input_repeats() {
    let mut lexer = lexer_over("@ x ");
    assert_eq!(lexer.get_next_token(), token(Tokens::VariableDeclaration, "@"));
    assert_eq!(lexer.get_next_token(), token(Tokens::VariableName, "x"));
    for _ in 0..5 {
        assert_eq!(lexer.get_next_token(), end());
    }
}

#[test]
fn adjacent_signs_are_separate_tokens() {
    let mut lexer = lexer_over("=@=");
    assert_eq!(lexer.get_next_token(), token(Tokens::Equal, "="));
    assert_eq!(lexer.get_next_token(), token(Tokens::VariableDeclaration, "@"));
    assert_eq!(lexer.get_next_token(), token(Tokens::Equal, "="));
    assert_eq!(lexer.get_next_token(), end());
}

#[test]
fn declaration_line() {
    let mut lexer = lexer_over("@name = \"some value\"\n");
    assert_eq!(lexer.get_next_token(), token(Tokens::VariableDeclaration, "@"));
    assert_eq!(lexer.get_next_token(), token(Tokens::VariableName, "name"));
    assert_eq!(lexer.get_next_token(), token(Tokens::Equal, "="));
    assert_eq!(lexer.get_next_token(), token(Tokens::StringVal, "some value"));
    assert_eq!(lexer.get_next_token(), end());
}

#[test]
fn invalid_character_is_reported_with_its_index() {
    let mut lexer = lexer_over("x  #");
    assert_eq!(lexer.get_next_token(), token(Tokens::VariableName, "x"));
    assert_eq!(lexer.get_next_token(), Err(LexerErrors::InvalidToken('#', 3)));
}

#[test]
fn invalid_character_keeps_the_cursor_on_it() {
    let mut lexer = lexer_over("1 =");
    assert_eq!(lexer.get_next_token(), Err(LexerErrors::InvalidToken('1', 0)));
    assert_eq!(lexer.get_next_token(), Err(LexerErrors::InvalidToken('1', 0)));
}

#[test]
fn letters_outside_ascii_are_invalid() {
    let mut lexer = lexer_over("\u{161}");
    assert_eq!(lexer.get_next_token(), Err(LexerErrors::InvalidToken('\u{161}', 0)));
    let mut lexer = lexer_over("= \u{e9}t\u{e9}");
    assert_eq!(lexer.get_next_token(), token(Tokens::Equal, "="));
    assert_eq!(lexer.get_next_token(), Err(LexerErrors::InvalidToken('\u{e9}', 2)));
}

#[test]
fn index_counts_characters() {
    let mut lexer = lexer_over("\"\u{4e16}\u{754c}\" ?");
    assert_eq!(lexer.get_next_token(), token(Tokens::StringVal, "\u{4e16}\u{754c}"));
    assert_eq!(lexer.get_next_token(), Err(LexerErrors::InvalidToken('?', 5)));
}

#[test]
fn carriage_return_is_no_blank() {
    let mut lexer = lexer_over("\r");
    assert_eq!(lexer.get_next_token(), Err(LexerErrors::InvalidToken('\r', 0)));
}

#[test]
fn load_failure_is_handed_back_unchanged() {
    let missing = ReadFileErrors::NoSuchFile("missing.nva".to_string());
    assert_eq!(Lexer::new(Err(missing.clone())).err(), Some(missing));
    let fault = ReadFileErrors::NoSuchDir("permission denied".to_string());
    assert_eq!(Lexer::new(Err(fault.clone())).err(), Some(fault));
}

#[test]
fn failures_are_told_apart() {
    assert_eq!(
        ReadFileErrors::from_failure("a.nva".to_string(), true, "not found".to_string()),
        ReadFileErrors::NoSuchFile("a.nva".to_string())
    );
    assert_eq!(
        ReadFileErrors::from_failure("a.nva".to_string(), false, "denied".to_string()),
        ReadFileErrors::NoSuchDir("denied".to_string())
    );
}

#[test]
fn laid_out_tokens_scan_to_the_same_tokens() {
    let source = "/ settings\n@name = \"a  b\" \t other/x\n\n@ \"\" = / trailing";
    let tokens = all_tokens(source).expect("the source has no error");
    assert_eq!(tokens.len(), 8);
    let text = layout(&tokens);
    assert_eq!(text, "@ name = \"a  b\" other/x @ \"\" =");
    assert_eq!(all_tokens(&text), Ok(tokens));
}

#[test]
fn plain_texts_with_single_spaces_scan_to_the_same_tokens() {
    let source = "@   count\n=\tseven / the rest\n@ = done";
    let tokens = all_tokens(source).expect("the source has no error");
    let texts: Vec<String> = tokens.iter().map(|t| t.token_value.clone()).collect();
    let text = texts.join(" ");
    assert_eq!(text, "@ count = seven @ = done");
    assert_eq!(all_tokens(&text), Ok(tokens));
}

#[test]
fn recorded_length_does_not_steer_the_scan() {
    let info = FileInfo { file_length: 999, file_data: "= x".to_string() };
    let mut lexer = Lexer::new(Ok(info)).expect("a loaded source always gives a lexer");
    assert_eq!(lexer.get_next_token(), token(Tokens::Equal, "="));
    assert_eq!(lexer.get_next_token(), token(Tokens::VariableName, "x"));
    assert_eq!(lexer.get_next_token(), end());
}

#[test]
fn long_run_of_comments_and_blanks_is_passed_over() {
    let mut source = String::new();
    for _ in 0..400 {
        source.push_str("/ note\n \t\n");
    }
    source.push('@');
    let mut lexer = lexer_over(&source);
    assert_eq!(lexer.get_next_token(), token(Tokens::VariableDeclaration, "@"));
    assert_eq!(lexer.get_next_token(), end());
}

#[test]
fn comment_without_newline_after_a_token() {
    let mut lexer = lexer_over("name / the rest");
    assert_eq!(lexer.get_next_token(), token(Tokens::VariableName, "name"));
    assert_eq!(lexer.get_next_token(), end());
    assert_eq!(lexer.get_next_token(), end());
}

#[test]
fn texts_of_a_source_with_a_string_do_not_scan_back() {
    let tokens = all_tokens("\"a b\"").expect("the source has no error");
    assert_eq!(tokens, vec![Token { token_id: Tokens::StringVal, token_value: "a b".to_string() }]);
    let rescanned = all_tokens("a b").expect("the source has no error");
    assert_eq!(rescanned.len(), 2);
    assert_eq!(rescanned[0].token_id, Tokens::VariableName);
    assert_eq!(all_tokens(&layout(&tokens)), Ok(tokens));
}

#[test]
fn loaded_text_records_its_length_in_bytes() {
    let info = FileInfo::from_text("h\u{e9} \u{4e16}".to_string());
    assert_eq!(info.file_data, "h\u{e9} \u{4e16}");
    assert_eq!(info.file_length, 7);
    let empty = FileInfo::from_text(String::new());
    assert_eq!(empty, FileInfo { file_length: 0, file_data: String::new() });
}

#[test]
fn lexer_over_measured_text() {
    let mut lexer = Lexer::new(Ok(FileInfo::from_text("@ n".to_string())))
        .expect("a loaded source always gives a lexer");
    assert_eq!(lexer.get_next_token(), token(Tokens::VariableDeclaration, "@"));
    assert_eq!(lexer.get_next_token(), token(Tokens::VariableName, "n"));
    assert_eq!(lexer.get_next_token(), end());
}
