//! The lexical grammar as mathematical functions on character sequences.

use vstd::prelude::*;

verus! {

/// The kinds of token.
#[derive(Debug, Clone, Copy, PartialEq, Eq, Structural)]
pub enum Tokens {
    /// The marker `@`.
    VariableDeclaration,
    /// A run of non-blank characters that starts with an ASCII letter.
    VariableName,
    /// The sign `=`.
    Equal,
    /// The content of a double-quoted string, quotes excluded.
    StringVal,
    /// The end of the source; it is returned again on every later request.
    EndOfInput,
}

/// Why no token could be cut at the cursor.
#[derive(Debug, Clone, Copy, PartialEq, Eq, Structural)]
pub enum LexerErrors {
    /// The character, and its index, that begins no token.
    InvalidToken(char, usize),
    /// The index of an opening quote that has no closing quote after it.
    UnterminatedString(usize),
}

/// A token as a mathematical value: its kind and the characters it stands for.
pub struct TokenView {
    pub kind: Tokens,
    pub text: Seq<char>,
}

/// What one request for a token yields, and where it leaves the cursor.
pub struct Step {
    pub outcome: Result<TokenView, LexerErrors>,
    pub cursor: int,
}

/// Space, tab and newline separate tokens.
pub open spec fn is_blank(c: char) -> bool {
    c == ' ' || c == '\t' || c == '\n'
}

/// The ASCII letters, which begin an identifier.
pub open spec fn is_letter(c: char) -> bool {
    ('a' <= c && c <= 'z') || ('A' <= c && c <= 'Z')
}

/// The first index at or after `from` that lies outside blanks and comments,
/// or `s.len()` if there is none. `in_comment` says whether `from` lies
/// inside a comment that began earlier on the line.
pub open spec fn skip_trivia(s: Seq<char>, from: int, in_comment: bool) -> int
    decreases s.len() - from,
{
    if from < 0 || from >= s.len() {
        s.len() as int
    } else if in_comment {
        skip_trivia(s, from + 1, s[from] != '\n')
    } else if s[from] == '/' {
        skip_trivia(s, from + 1, true)
    } else if is_blank(s[from]) {
        skip_trivia(s, from + 1, false)
    } else {
        from
    }
}

/// The first index at or after `from` that holds a double quote, or
/// `s.len()` if there is none.
pub open spec fn string_end(s: Seq<char>, from: int) -> int
    decreases s.len() - from,
{
    if from < 0 || from >= s.len() {
        s.len() as int
    } else if s[from] == '"' {
        from
    } else {
        string_end(s, from + 1)
    }
}

/// The first index at or after `from` that holds a blank, or `s.len()` if
/// there is none.
pub open spec fn word_end(s: Seq<char>, from: int) -> int
    decreases s.len() - from,
{
    if from < 0 || from >= s.len() {
        s.len() as int
    } else if is_blank(s[from]) {
        from
    } else {
        word_end(s, from + 1)
    }
}

/// The end-of-input token: it has no text.
pub open spec fn end_of_input() -> TokenView {
    TokenView { kind: Tokens::EndOfInput, text: Seq::empty() }
}

/// The token that begins at `p`, an index of `s` outside blanks and
/// comments, and the cursor after it.
pub open spec fn token_at(s: Seq<char>, p: int) -> Step
    recommends
        0 <= p < s.len(),
{
    let c = s[p];
    if c == '=' {
        Step {
            outcome: Ok(TokenView { kind: Tokens::Equal, text: s.subrange(p, p + 1) }),
            cursor: p + 1,
        }
    } else if c == '@' {
        Step {
            outcome: Ok(
                TokenView { kind: Tokens::VariableDeclaration, text: s.subrange(p, p + 1) },
            ),
            cursor: p + 1,
        }
    } else if c == '"' {
        let q = string_end(s, p + 1);
        if q < s.len() {
            Step {
                outcome: Ok(TokenView { kind: Tokens::StringVal, text: s.subrange(p + 1, q) }),
                cursor: q + 1,
            }
        } else {
            Step { outcome: Err(LexerErrors::UnterminatedString(p as usize)), cursor: q }
        }
    } else if is_letter(c) {
        let q = word_end(s, p);
        Step {
            outcome: Ok(TokenView { kind: Tokens::VariableName, text: s.subrange(p, q) }),
            cursor: q,
        }
    } else {
        Step { outcome: Err(LexerErrors::InvalidToken(c, p as usize)), cursor: p }
    }
}

/// What a request for the next token yields when the cursor stands at
/// `from` in `s`: blanks and comments are passed over, then one token is
/// cut, or the end of input is reported, or the scan fails.
pub open spec fn next_token(s: Seq<char>, from: int) -> Step {
    let p = skip_trivia(s, from, false);
    if p >= s.len() {
        Step { outcome: Ok(end_of_input()), cursor: s.len() as int }
    } else {
        token_at(s, p)
    }
}

/// `skip_trivia` never moves backwards and never leaves the sequence.
pub proof fn lemma_skip_trivia_bounds(s: Seq<char>, from: int, in_comment: bool)
    requires
        0 <= from <= s.len(),
    ensures
        from <= skip_trivia(s, from, in_comment) <= s.len(),
    decreases s.len() - from,
{
    if from < s.len() {
        if in_comment {
            lemma_skip_trivia_bounds(s, from + 1, s[from] != '\n');
        } else if s[from] == '/' {
            lemma_skip_trivia_bounds(s, from + 1, true);
        } else if is_blank(s[from]) {
            lemma_skip_trivia_bounds(s, from + 1, false);
        }
    }
}

/// `string_end` lies between `from` and the end, no index before it holds
/// a double quote, and it holds one unless it is the end.
pub proof fn lemma_string_end_bounds(s: Seq<char>, from: int)
    requires
        0 <= from <= s.len(),
    ensures
        from <= string_end(s, from) <= s.len(),
        forall|i: int| from <= i < string_end(s, from) ==> s[i] != '"',
        string_end(s, from) < s.len() ==> s[string_end(s, from)] == '"',
    decreases s.len() - from,
{
    if from < s.len() && s[from] != '"' {
        lemma_string_end_bounds(s, from + 1);
    }
}

/// `word_end` lies between `from` and the end, no index before it holds a
/// blank, and it holds one unless it is the end.
pub proof fn lemma_word_end_bounds(s: Seq<char>, from: int)
    requires
        0 <= from <= s.len(),
    ensures
        from <= word_end(s, from) <= s.len(),
        forall|i: int| from <= i < word_end(s, from) ==> !is_blank(s[i]),
        word_end(s, from) < s.len() ==> is_blank(s[word_end(s, from)]),
    decreases s.len() - from,
{
    if from < s.len() && !is_blank(s[from]) {
        lemma_word_end_bounds(s, from + 1);
    }
}

/// A request that yields a token other than the end of input moves the
/// cursor forward, within the text.
pub proof fn lemma_token_moves_cursor(s: Seq<char>, from: int)
    requires
        next_token(s, from).outcome is Ok,
        next_token(s, from).outcome->Ok_0.kind != Tokens::EndOfInput,
    ensures
        0 <= from < next_token(s, from).cursor <= s.len(),
{
    if 0 <= from <= s.len() {
        lemma_skip_trivia_bounds(s, from, false);
        let p = skip_trivia(s, from, false);
        lemma_string_end_bounds(s, p + 1);
        lemma_word_end_bounds(s, p + 1);
    }
}

/// The tokens of `s` from the cursor `from` up to the end of input, in
/// order and without the end-of-input token; `None` where a request fails
/// on the way.
pub open spec fn tokens_from(s: Seq<char>, from: int) -> Option<Seq<TokenView>>
    decreases s.len() - from,
{
    let step = next_token(s, from);
    match step.outcome {
        Err(_) => None,
        Ok(t) => if t.kind == Tokens::EndOfInput {
            Some(Seq::empty())
        } else {
            proof {
                lemma_token_moves_cursor(s, from);
            }
            match tokens_from(s, step.cursor) {
                None => None,
                Some(rest) => Some(seq![t] + rest),
            }
        },
    }
}

/// What the text of a token of each kind looks like: a sign is its one
/// character, a string holds no double quote, an identifier begins with a
/// letter and holds no blank. The end of input is no token of a stream.
pub open spec fn well_formed(t: TokenView) -> bool {
    match t.kind {
        Tokens::Equal => t.text == seq!['='],
        Tokens::VariableDeclaration => t.text == seq!['@'],
        Tokens::StringVal => forall|i: int| 0 <= i < t.text.len() ==> t.text[i] != '"',
        Tokens::VariableName => {
            &&& t.text.len() > 0
            &&& is_letter(t.text[0])
            &&& forall|i: int| 0 <= i < t.text.len() ==> !is_blank(t.text[i])
        },
        Tokens::EndOfInput => false,
    }
}

/// A token as it is written in a source: a string in its quotes, any
/// other token as its text.
pub open spec fn written(t: TokenView) -> Seq<char> {
    if t.kind == Tokens::StringVal {
        seq!['"'] + t.text + seq!['"']
    } else {
        t.text
    }
}

/// The tokens written out in order with a single space between them.
pub open spec fn laid_out(ts: Seq<TokenView>) -> Seq<char>
    decreases ts.len(),
{
    if ts.len() == 0 {
        Seq::empty()
    } else if ts.len() == 1 {
        written(ts[0])
    } else {
        written(ts[0]) + seq![' '] + laid_out(ts.drop_first())
    }
}

/// The texts of the tokens in order with a single space between them.
pub open spec fn spaced_texts(ts: Seq<TokenView>) -> Seq<char>
    decreases ts.len(),
{
    if ts.len() == 0 {
        Seq::empty()
    } else if ts.len() == 1 {
        ts[0].text
    } else {
        ts[0].text + seq![' '] + spaced_texts(ts.drop_first())
    }
}

} // verus!
