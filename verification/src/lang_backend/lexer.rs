//! The scanner: a source text, a cursor into it, and the operation that
//! cuts the next token at the cursor.

use vstd::prelude::*;
use vstd::string::StrSliceExecFns;
use vstd::utf8::encode_utf8;
use crate::grammar::{
    is_blank, is_letter, next_token, skip_trivia, string_end, token_at, word_end, Step, TokenView,
};
pub use crate::grammar::{LexerErrors, Tokens};
use crate::lang_backend::read_file::{FileInfo, ReadFileErrors};

verus! {

/// A token: its kind and an owned copy of the text it was cut from.
#[derive(Debug, PartialEq, Eq)]
pub struct Token {
    pub token_id: Tokens,
    pub token_value: String,
}

impl View for Token {
    type V = TokenView;

    open spec fn view(&self) -> TokenView {
        TokenView { kind: self.token_id, text: self.token_value@ }
    }
}

/// The outcome of a request, with the token taken by its view.
pub open spec fn outcome_view(r: Result<Token, LexerErrors>) -> Result<TokenView, LexerErrors> {
    match r {
        Ok(t) => Ok(t@),
        Err(e) => Err(e),
    }
}

/// A source text and a cursor into it.
///
/// The cursor is an index of the text in characters, or the text's length
/// once the input is exhausted; `current_char` is the character under the
/// cursor, `None` at the end of input.
#[derive(Debug)]
pub struct Lexer {
    file_length: u64,
    file_data: String,
    char_count: usize,
    current_index: usize,
    current_char: Option<char>,
}

impl Lexer {
    /// The text being scanned. No operation changes it.
    pub closed spec fn source(&self) -> Seq<char> {
        self.file_data@
    }

    /// The cursor: the index of the next character to be read.
    pub closed spec fn position(&self) -> int {
        self.current_index as int
    }

    /// The recorded length of the text in bytes.
    pub closed spec fn byte_length(&self) -> nat {
        self.file_length as nat
    }

    /// The cursor lies in the text or one past its end, the cached
    /// character is the one under it, and the recorded lengths are those
    /// of the text.
    pub closed spec fn wf(&self) -> bool {
        &&& self.file_length == encode_utf8(self.file_data@).len()
        &&& self.char_count == self.file_data@.len()
        &&& self.current_index <= self.char_count
        &&& self.current_char == if self.current_index < self.char_count {
            Some(self.file_data@[self.current_index as int])
        } else {
            None::<char>
        }
    }

    /// The cursor of a well-formed scanner is an index of the text or one
    /// past its end, and the recorded byte length is that of the text's
    /// UTF-8 encoding.
    pub proof fn lemma_wf_bounds(&self)
        requires
            self.wf(),
        ensures
            0 <= self.position() <= self.source().len(),
            self.source().len() <= usize::MAX,
            self.byte_length() == encode_utf8(self.source()).len(),
    {
    }

    /// Builds a scanner over the outcome of loading a source file, with
    /// the cursor on the first character. A failed load is handed back
    /// unchanged. The byte length is measured on the text itself.
    pub fn new(loaded: Result<FileInfo, ReadFileErrors>) -> (result: Result<
        Box<Lexer>,
        ReadFileErrors,
    >)
        ensures
            match loaded {
                Ok(info) => {
                    &&& result is Ok
                    &&& result->Ok_0.wf()
                    &&& result->Ok_0.source() == info.file_data@
                    &&& result->Ok_0.position() == 0
                    &&& result->Ok_0.byte_length() == encode_utf8(info.file_data@).len()
                    &&& info.wf() ==> result->Ok_0.byte_length() == info.file_length
                },
                Err(e) => result == Err::<Box<Lexer>, ReadFileErrors>(e),
            },
    {
        match loaded {
            Err(e) => Err(e),
            Ok(info) => {
                let file_data = info.file_data;
                let bytes: usize = file_data.as_str().as_bytes().len();
                let char_count: usize = file_data.as_str().unicode_len();
                let current_char = if 0 < char_count {
                    Some(file_data.as_str().get_char(0))
                } else {
                    None
                };
                Ok(
                    Box::new(
                        Lexer {
                            file_length: bytes as u64,
                            file_data,
                            char_count,
                            current_index: 0,
                            current_char,
                        },
                    ),
                )
            },
        }
    }

    /// Moves the cursor one character on.
    fn advance(&mut self)
        requires
            old(self).wf(),
            old(self).current_index < old(self).char_count,
        ensures
            final(self).wf(),
            final(self).file_data == old(self).file_data,
            final(self).file_length == old(self).file_length,
            final(self).current_index == old(self).current_index + 1,
    {
        let next: usize = self.current_index + 1;
        let c = if next < self.char_count {
            Some(self.file_data.as_str().get_char(next))
        } else {
            None
        };
        self.current_index = next;
        self.current_char = c;
    }

    /// Passes over the blanks under the cursor, and over nothing else: the
    /// cursor stops on the first character at or after it that is no blank,
    /// or at the end of input.
    fn skip_whitespace(&mut self)
        requires
            old(self).wf(),
        ensures
            final(self).wf(),
            final(self).file_data == old(self).file_data,
            final(self).file_length == old(self).file_length,
            old(self).current_index <= final(self).current_index,
            final(self).current_char is Some ==> !is_blank(final(self).current_char->Some_0),
            forall|i: int|
                old(self).current_index <= i < final(self).current_index ==> is_blank(
                    old(self).file_data@[i],
                ),
            skip_trivia(final(self).file_data@, final(self).current_index as int, false)
                == skip_trivia(old(self).file_data@, old(self).current_index as int, false),
    {
        while self.current_char == Some(' ') || self.current_char == Some('\t')
            || self.current_char == Some('\n')
            invariant
                self.wf(),
                self.file_data == old(self).file_data,
                self.file_length == old(self).file_length,
                old(self).current_index <= self.current_index,
                forall|i: int|
                    old(self).current_index <= i < self.current_index ==> is_blank(
                        old(self).file_data@[i],
                    ),
                skip_trivia(self.file_data@, self.current_index as int, false) == skip_trivia(
                    old(self).file_data@,
                    old(self).current_index as int,
                    false,
                ),
            decreases self.char_count - self.current_index,
        {
            self.advance();
        }
    }

    /// Passes over a comment: from the `/` under the cursor up to the
    /// newline that ends the line, or to the end of input.
    fn skip_comment(&mut self)
        requires
            old(self).wf(),
            old(self).current_char == Some('/'),
        ensures
            final(self).wf(),
            final(self).file_data == old(self).file_data,
            final(self).file_length == old(self).file_length,
            old(self).current_index < final(self).current_index,
            final(self).current_char is Some ==> final(self).current_char == Some('\n'),
            forall|i: int|
                old(self).current_index < i < final(self).current_index ==> old(
                    self,
                ).file_data@[i] != '\n',
            skip_trivia(final(self).file_data@, final(self).current_index as int, false)
                == skip_trivia(old(self).file_data@, old(self).current_index as int, false),
    {
        self.advance();
        while self.current_char.is_some() && self.current_char != Some('\n')
            invariant
                self.wf(),
                self.file_data == old(self).file_data,
                self.file_length == old(self).file_length,
                old(self).current_index < self.current_index,
                forall|i: int|
                    old(self).current_index < i < self.current_index ==> old(
                        self,
                    ).file_data@[i] != '\n',
                skip_trivia(self.file_data@, self.current_index as int, true) == skip_trivia(
                    old(self).file_data@,
                    old(self).current_index as int,
                    false,
                ),
            decreases self.char_count - self.current_index,
        {
            self.advance();
        }
    }

    /// Whether the character under the cursor is an ASCII letter.
    fn is_ascii(&self) -> (b: bool)
        ensures
            b == (self.current_char is Some && is_letter(self.current_char->Some_0)),
    {
        match self.current_char {
            Some(c) => (c >= 'a' && c <= 'z') || (c >= 'A' && c <= 'Z'),
            None => false,
        }
    }

    /// An owned copy of the characters of the text from `from` up to `to`.
    fn text_between(&self, from: usize, to: usize) -> (text: String)
        requires
            self.wf(),
            from <= to <= self.char_count,
        ensures
            text@ == self.file_data@.subrange(from as int, to as int),
    {
        self.file_data.as_str().substring_char(from, to).to_owned()
    }

    /// Moves the cursor to the first double quote at or after it, or to
    /// the end of input.
    fn seek_quote(&mut self)
        requires
            old(self).wf(),
        ensures
            final(self).wf(),
            final(self).file_data == old(self).file_data,
            final(self).file_length == old(self).file_length,
            old(self).current_index <= final(self).current_index,
            final(self).current_index == string_end(
                old(self).file_data@,
                old(self).current_index as int,
            ),
    {
        while self.current_char.is_some() && self.current_char != Some('"')
            invariant
                self.wf(),
                self.file_data == old(self).file_data,
                self.file_length == old(self).file_length,
                old(self).current_index <= self.current_index,
                string_end(self.file_data@, self.current_index as int) == string_end(
                    old(self).file_data@,
                    old(self).current_index as int,
                ),
            decreases self.char_count - self.current_index,
        {
            self.advance();
        }
    }

    /// Moves the cursor to the first blank at or after it, or to the end
    /// of input.
    fn seek_blank(&mut self)
        requires
            old(self).wf(),
        ensures
            final(self).wf(),
            final(self).file_data == old(self).file_data,
            final(self).file_length == old(self).file_length,
            old(self).current_index <= final(self).current_index,
            final(self).current_index == word_end(
                old(self).file_data@,
                old(self).current_index as int,
            ),
    {
        while self.current_char.is_some() && self.current_char != Some(' ') && self.current_char
            != Some('\t') && self.current_char != Some('\n')
            invariant
                self.wf(),
                self.file_data == old(self).file_data,
                self.file_length == old(self).file_length,
                old(self).current_index <= self.current_index,
                word_end(self.file_data@, self.current_index as int) == word_end(
                    old(self).file_data@,
                    old(self).current_index as int,
                ),
            decreases self.char_count - self.current_index,
        {
            self.advance();
        }
    }

    /// Cuts the token that begins with `c`, the character under the cursor.
    fn scan_token(&mut self, c: char) -> (result: Result<Token, LexerErrors>)
        requires
            old(self).wf(),
            old(self).current_char == Some(c),
        ensures
            final(self).wf(),
            final(self).file_data == old(self).file_data,
            final(self).file_length == old(self).file_length,
            (Step { outcome: outcome_view(result), cursor: final(self).current_index as int })
                == token_at(old(self).file_data@, old(self).current_index as int),
    {
        let start: usize = self.current_index;
        if c == '=' {
            self.advance();
            Ok(Token { token_id: Tokens::Equal, token_value: self.text_between(start, start + 1) })
        } else if c == '@' {
            self.advance();
            Ok(
                Token {
                    token_id: Tokens::VariableDeclaration,
                    token_value: self.text_between(start, start + 1),
                },
            )
        } else if c == '"' {
            self.advance();
            self.seek_quote();
            if self.current_char.is_some() {
                let close: usize = self.current_index;
                self.advance();
                Ok(
                    Token {
                        token_id: Tokens::StringVal,
                        token_value: self.text_between(start + 1, close),
                    },
                )
            } else {
                Err(LexerErrors::UnterminatedString(start))
            }
        } else if self.is_ascii() {
            self.seek_blank();
            let end: usize = self.current_index;
            Ok(Token { token_id: Tokens::VariableName, token_value: self.text_between(start, end) })
        } else {
            Err(LexerErrors::InvalidToken(c, start))
        }
    }

    /// Cuts the next token at the cursor.
    ///
    /// Blanks and comments are passed over first. At the end of input the
    /// result is the end-of-input token and the cursor stays there. On an
    /// invalid character the cursor stays on it; on an unterminated string
    /// it stands at the end of input.
    pub fn get_next_token(&mut self) -> (result: Result<Token, LexerErrors>)
        requires
            old(self).wf(),
        ensures
            final(self).wf(),
            final(self).source() == old(self).source(),
            final(self).byte_length() == old(self).byte_length(),
            (Step { outcome: outcome_view(result), cursor: final(self).position() }) == next_token(
                old(self).source(),
                old(self).position(),
            ),
    {
        loop
            invariant
                self.wf(),
                self.file_data == old(self).file_data,
                self.file_length == old(self).file_length,
                skip_trivia(self.file_data@, self.current_index as int, false) == skip_trivia(
                    old(self).file_data@,
                    old(self).current_index as int,
                    false,
                ),
            decreases self.char_count - self.current_index,
        {
            match self.current_char {
                None => {
                    return Ok(Token { token_id: Tokens::EndOfInput, token_value: String::new() });
                },
                Some(c) => {
                    if c == '/' {
                        self.skip_comment();
                    } else if c == ' ' || c == '\t' || c == '\n' {
                        let ghost before = self.current_index;
                        self.skip_whitespace();
                        assert(self.current_index > before);
                    } else {
                        return self.scan_token(c);
                    }
                },
            }
        }
    }
}

} // verus!
