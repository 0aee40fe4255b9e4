//! Theorems about the grammar.

use vstd::prelude::*;
use crate::grammar::{
    end_of_input, is_blank, is_letter, laid_out, lemma_skip_trivia_bounds,
    lemma_string_end_bounds, lemma_token_moves_cursor, lemma_word_end_bounds, next_token,
    skip_trivia, spaced_texts, string_end, tokens_from, well_formed, word_end, written,
    LexerErrors, Step, TokenView, Tokens,
};

verus! {

/// `string_end` is the first double quote at or after `from`: if `q` holds
/// a double quote and no index from `from` up to `q` does, it is `q`.
pub proof fn lemma_string_end_is_first_quote(s: Seq<char>, from: int, q: int)
    requires
        0 <= from <= q < s.len(),
        s[q] == '"',
        forall|i: int| from <= i < q ==> s[i] != '"',
    ensures
        string_end(s, from) == q,
    decreases q - from,
{
    if from < q {
        lemma_string_end_is_first_quote(s, from + 1, q);
    }
}

/// Where no double quote stands at or after `from`, `string_end` is the
/// length of the sequence.
pub proof fn lemma_string_end_without_quote(s: Seq<char>, from: int)
    requires
        0 <= from <= s.len(),
        forall|i: int| from <= i < s.len() ==> s[i] != '"',
    ensures
        string_end(s, from) == s.len(),
    decreases s.len() - from,
{
    if from < s.len() {
        lemma_string_end_without_quote(s, from + 1);
    }
}

/// `word_end` is the first blank at or after `from`, or the length of the
/// sequence: if no index from `from` up to `q` holds a blank, and `q` is
/// the length or holds one, it is `q`.
pub proof fn lemma_word_end_is_first_blank(s: Seq<char>, from: int, q: int)
    requires
        0 <= from <= q <= s.len(),
        q < s.len() ==> is_blank(s[q]),
        forall|i: int| from <= i < q ==> !is_blank(s[i]),
    ensures
        word_end(s, from) == q,
    decreases q - from,
{
    if from < q {
        lemma_word_end_is_first_blank(s, from + 1, q);
    }
}

/// A string in its quotes is one token, whatever blanks it holds: for
/// every `content` without a double quote, the source made of a quote,
/// `content` and a quote yields a `StringVal` whose text is `content`, and
/// the cursor then stands at the end.
pub proof fn lemma_quoted_string_is_one_token(content: Seq<char>)
    requires
        forall|i: int| 0 <= i < content.len() ==> content[i] != '"',
    ensures
        next_token(seq!['"'] + content + seq!['"'], 0) == (Step {
            outcome: Ok(TokenView { kind: Tokens::StringVal, text: content }),
            cursor: content.len() as int + 2,
        }),
        next_token(seq!['"'] + content + seq!['"'], content.len() as int + 2).outcome == Ok::<
            TokenView,
            LexerErrors,
        >(end_of_input()),
{
    let s = seq!['"'] + content + seq!['"'];
    let q: int = content.len() as int + 1;
    assert(s[0] == '"');
    assert(s[q] == '"');
    assert forall|i: int| 1 <= i < q implies s[i] != '"' by {
        assert(s[i] == content[i - 1]);
    }
    lemma_string_end_is_first_quote(s, 1, q);
    assert(s.subrange(1, q) =~= content);
    assert(skip_trivia(s, 0, false) == 0);
    assert(skip_trivia(s, q + 1, false) == s.len());
}

/// A string that is never closed is an error, not a token: for every
/// `content` without a double quote, the source made of a quote and
/// `content` fails with `UnterminatedString` at the opening quote, and the
/// cursor then stands at the end.
pub proof fn lemma_open_string_is_unterminated(content: Seq<char>)
    requires
        forall|i: int| 0 <= i < content.len() ==> content[i] != '"',
    ensures
        next_token(seq!['"'] + content, 0) == (Step {
            outcome: Err(LexerErrors::UnterminatedString(0)),
            cursor: content.len() as int + 1,
        }),
{
    let s = seq!['"'] + content;
    assert(s[0] == '"');
    assert forall|i: int| 1 <= i < s.len() implies s[i] != '"' by {
        assert(s[i] == content[i - 1]);
    }
    lemma_string_end_without_quote(s, 1);
    assert(skip_trivia(s, 0, false) == 0);
}

/// An identifier that runs to the end of the source is one token: for
/// every `word` that begins with a letter and holds no blank, the source
/// `word` yields a `VariableName` whose text is `word`, then the end of
/// input.
pub proof fn lemma_word_at_end_is_one_token(word: Seq<char>)
    requires
        word.len() > 0,
        is_letter(word[0]),
        forall|i: int| 0 <= i < word.len() ==> !is_blank(word[i]),
    ensures
        next_token(word, 0) == (Step {
            outcome: Ok(TokenView { kind: Tokens::VariableName, text: word }),
            cursor: word.len() as int,
        }),
        next_token(word, word.len() as int).outcome == Ok::<TokenView, LexerErrors>(
            end_of_input(),
        ),
{
    lemma_word_end_is_first_blank(word, 0, word.len() as int);
    assert(word.subrange(0, word.len() as int) =~= word);
    assert(skip_trivia(word, 0, false) == 0);
    assert(skip_trivia(word, word.len() as int, false) == word.len());
}

/// Inside a comment that no newline ends, nothing but the end of input
/// is left.
pub proof fn lemma_open_comment_runs_to_end(s: Seq<char>, from: int)
    requires
        0 <= from <= s.len(),
        forall|i: int| from <= i < s.len() ==> s[i] != '\n',
    ensures
        skip_trivia(s, from, true) == s.len(),
    decreases s.len() - from,
{
    if from < s.len() {
        lemma_open_comment_runs_to_end(s, from + 1);
    }
}

/// A comment is no token: a source that is one comment without a newline
/// yields the end of input at once.
pub proof fn lemma_comment_only_is_end_of_input(s: Seq<char>)
    requires
        s.len() > 0,
        s[0] == '/',
        forall|i: int| 0 <= i < s.len() ==> s[i] != '\n',
    ensures
        next_token(s, 0) == (Step { outcome: Ok(end_of_input()), cursor: s.len() as int }),
{
    lemma_open_comment_runs_to_end(s, 1);
}

/// The end of input is final: once a request has yielded the end-of-input
/// token, a request at the cursor it left yields the same again, and
/// leaves the cursor where it is.
pub proof fn lemma_end_of_input_is_final(s: Seq<char>, from: int)
    requires
        next_token(s, from).outcome is Ok,
        next_token(s, from).outcome->Ok_0.kind == Tokens::EndOfInput,
    ensures
        next_token(s, from).cursor == s.len(),
        next_token(s, next_token(s, from).cursor) == next_token(s, from),
{
    assert(skip_trivia(s, s.len() as int, false) == s.len());
}

/// Every token that a request yields, but the end of input, has the text
/// of its kind.
pub proof fn lemma_token_is_well_formed(s: Seq<char>, from: int)
    requires
        next_token(s, from).outcome is Ok,
        next_token(s, from).outcome->Ok_0.kind != Tokens::EndOfInput,
    ensures
        well_formed(next_token(s, from).outcome->Ok_0),
{
    lemma_token_moves_cursor(s, from);
    lemma_skip_trivia_bounds(s, from, false);
    let p = skip_trivia(s, from, false);
    let t = next_token(s, from).outcome->Ok_0;
    lemma_string_end_bounds(s, p + 1);
    lemma_word_end_bounds(s, p + 1);
    if s[p] == '=' {
        assert(t.text =~= seq!['=']);
    } else if s[p] == '@' {
        assert(t.text =~= seq!['@']);
    } else if s[p] == '"' {
        assert forall|i: int| 0 <= i < t.text.len() implies t.text[i] != '"' by {
            assert(t.text[i] == s[p + 1 + i]);
        }
    } else {
        assert(word_end(s, p) == word_end(s, p + 1));
        assert(t.text[0] == s[p]);
        assert forall|i: int| 0 <= i < t.text.len() implies !is_blank(t.text[i]) by {
            assert(t.text[i] == s[p + i]);
        }
    }
}

/// Every token of a stream has the text of its kind.
pub proof fn lemma_stream_is_well_formed(s: Seq<char>, from: int)
    requires
        tokens_from(s, from) is Some,
    ensures
        forall|i: int|
            0 <= i < tokens_from(s, from)->Some_0.len() ==> well_formed(
                #[trigger] tokens_from(s, from)->Some_0[i],
            ),
    decreases s.len() - from,
{
    let step = next_token(s, from);
    let t = step.outcome->Ok_0;
    if t.kind != Tokens::EndOfInput {
        lemma_token_moves_cursor(s, from);
        lemma_token_is_well_formed(s, from);
        lemma_stream_is_well_formed(s, step.cursor);
        let rest = tokens_from(s, step.cursor)->Some_0;
        let ts = tokens_from(s, from)->Some_0;
        assert(ts == seq![t] + rest);
        assert forall|i: int| 0 <= i < ts.len() implies well_formed(#[trigger] ts[i]) by {
            if i > 0 {
                assert(ts[i] == rest[i - 1]);
            }
        }
    }
}

/// Text put in front of a source shifts where blanks and comments end,
/// and changes nothing else.
pub proof fn lemma_skip_trivia_shift(pre: Seq<char>, b: Seq<char>, k: int, in_comment: bool)
    requires
        0 <= k <= b.len(),
    ensures
        skip_trivia(pre + b, pre.len() + k, in_comment) == pre.len() + skip_trivia(
            b,
            k,
            in_comment,
        ),
    decreases b.len() - k,
{
    let s = pre + b;
    if k < b.len() {
        assert(s[pre.len() + k] == b[k]);
        if in_comment {
            lemma_skip_trivia_shift(pre, b, k + 1, b[k] != '\n');
        } else if b[k] == '/' {
            lemma_skip_trivia_shift(pre, b, k + 1, true);
        } else if is_blank(b[k]) {
            lemma_skip_trivia_shift(pre, b, k + 1, false);
        }
    }
}

/// Text put in front of a source shifts where a string ends.
pub proof fn lemma_string_end_shift(pre: Seq<char>, b: Seq<char>, k: int)
    requires
        0 <= k <= b.len(),
    ensures
        string_end(pre + b, pre.len() + k) == pre.len() + string_end(b, k),
    decreases b.len() - k,
{
    let s = pre + b;
    if k < b.len() {
        assert(s[pre.len() + k] == b[k]);
        if b[k] != '"' {
            lemma_string_end_shift(pre, b, k + 1);
        }
    }
}

/// Text put in front of a source shifts where a word ends.
pub proof fn lemma_word_end_shift(pre: Seq<char>, b: Seq<char>, k: int)
    requires
        0 <= k <= b.len(),
    ensures
        word_end(pre + b, pre.len() + k) == pre.len() + word_end(b, k),
    decreases b.len() - k,
{
    let s = pre + b;
    if k < b.len() {
        assert(s[pre.len() + k] == b[k]);
        if !is_blank(b[k]) {
            lemma_word_end_shift(pre, b, k + 1);
        }
    }
}

/// Text put in front of a source shifts the cursor of every request and
/// changes no token: a request yields the same token, with the cursor
/// moved by the length of that text, and fails where it failed before.
pub proof fn lemma_next_token_shift(pre: Seq<char>, b: Seq<char>, k: int)
    requires
        0 <= k <= b.len(),
    ensures
        next_token(pre + b, pre.len() + k).outcome is Ok <==> next_token(b, k).outcome is Ok,
        next_token(b, k).outcome is Ok ==> next_token(pre + b, pre.len() + k) == (Step {
            outcome: next_token(b, k).outcome,
            cursor: pre.len() + next_token(b, k).cursor,
        }),
{
    let s = pre + b;
    let n = pre.len() as int;
    lemma_skip_trivia_shift(pre, b, k, false);
    lemma_skip_trivia_bounds(b, k, false);
    let p = skip_trivia(b, k, false);
    if p < b.len() {
        assert(s[n + p] == b[p]);
        lemma_string_end_shift(pre, b, p + 1);
        lemma_word_end_shift(pre, b, p);
        lemma_string_end_bounds(b, p + 1);
        lemma_word_end_bounds(b, p);
        assert(s.subrange(n + p, n + p + 1) =~= b.subrange(p, p + 1));
        assert(s.subrange(n + p + 1, n + string_end(b, p + 1)) =~= b.subrange(
            p + 1,
            string_end(b, p + 1),
        ));
        assert(s.subrange(n + p, n + word_end(b, p)) =~= b.subrange(p, word_end(b, p)));
    }
}

/// Text put in front of a source changes none of its tokens.
pub proof fn lemma_tokens_from_shift(pre: Seq<char>, b: Seq<char>, k: int)
    requires
        0 <= k <= b.len(),
    ensures
        tokens_from(pre + b, pre.len() + k) == tokens_from(b, k),
    decreases b.len() - k,
{
    lemma_next_token_shift(pre, b, k);
    let step = next_token(b, k);
    if step.outcome is Ok && step.outcome->Ok_0.kind != Tokens::EndOfInput {
        lemma_token_moves_cursor(b, k);
        lemma_tokens_from_shift(pre, b, step.cursor);
    }
}

/// A written token, at the start of a source and followed by a blank or
/// by nothing, is scanned as that token, and the cursor then stands right
/// after it.
pub proof fn lemma_written_token_scans_back(t: TokenView, tail: Seq<char>)
    requires
        well_formed(t),
        tail.len() > 0 ==> is_blank(tail[0]),
    ensures
        next_token(written(t) + tail, 0) == (Step {
            outcome: Ok(t),
            cursor: written(t).len() as int,
        }),
{
    let w = written(t);
    let s = w + tail;
    let n = w.len() as int;
    if t.kind == Tokens::StringVal {
        assert(s[0] == '"');
        assert(s[n - 1] == '"');
        assert forall|i: int| 1 <= i < n - 1 implies s[i] != '"' by {
            assert(s[i] == t.text[i - 1]);
        }
        lemma_string_end_is_first_quote(s, 1, n - 1);
        assert(s.subrange(1, n - 1) =~= t.text);
    } else if t.kind == Tokens::VariableName {
        assert(s[0] == t.text[0]);
        assert forall|i: int| 0 <= i < n implies !is_blank(s[i]) by {
            assert(s[i] == t.text[i]);
        }
        if tail.len() > 0 {
            assert(s[n] == tail[0]);
        }
        lemma_word_end_is_first_blank(s, 0, n);
        assert(s.subrange(0, n) =~= t.text);
    } else {
        assert(s[0] == t.text[0]);
        assert(s.subrange(0, 1) =~= t.text);
    }
    assert(skip_trivia(s, 0, false) == 0);
}

/// Tokens laid out with single spaces scan back to themselves: for every
/// sequence of tokens, each with the text of its kind, the source made by
/// writing them in order with one space between them has exactly those
/// tokens.
pub proof fn lemma_layout_scans_back(ts: Seq<TokenView>)
    requires
        forall|i: int| 0 <= i < ts.len() ==> well_formed(#[trigger] ts[i]),
    ensures
        tokens_from(laid_out(ts), 0) == Some(ts),
    decreases ts.len(),
{
    let r = laid_out(ts);
    if ts.len() == 0 {
        assert(skip_trivia(r, 0, false) == 0);
        assert(ts =~= Seq::empty());
    } else {
        let t = ts[0];
        let w = written(t);
        let n = w.len() as int;
        let rest = ts.drop_first();
        assert(well_formed(t));
        assert(n > 0);
        if ts.len() == 1 {
            assert(r =~= w + Seq::<char>::empty());
            lemma_written_token_scans_back(t, Seq::empty());
            assert(skip_trivia(r, n, false) == n);
            assert(tokens_from(r, n) == Some(Seq::<TokenView>::empty()));
            assert(seq![t] + Seq::<TokenView>::empty() =~= ts);
        } else {
            let b = laid_out(rest);
            let tail = seq![' '] + b;
            let pre = w + seq![' '];
            assert(r =~= w + tail);
            assert(r =~= pre + b);
            lemma_written_token_scans_back(t, tail);
            assert forall|i: int| 0 <= i < rest.len() implies well_formed(
                #[trigger] rest[i],
            ) by {
                assert(rest[i] == ts[i + 1]);
            }
            lemma_layout_scans_back(rest);
            lemma_tokens_from_shift(pre, b, 0);
            assert(r[n] == ' ');
            assert(skip_trivia(r, n, false) == skip_trivia(r, n + 1, false));
            assert(next_token(r, n) == next_token(r, n + 1));
            assert(tokens_from(r, n) == tokens_from(r, n + 1));
            assert(tokens_from(r, n) == Some(rest));
            assert(seq![t] + rest =~= ts);
        }
    }
}

/// Where no token is a string, writing the tokens out is writing their
/// texts out.
pub proof fn lemma_layout_without_strings(ts: Seq<TokenView>)
    requires
        forall|i: int| 0 <= i < ts.len() ==> (#[trigger] ts[i]).kind != Tokens::StringVal,
    ensures
        laid_out(ts) == spaced_texts(ts),
    decreases ts.len(),
{
    if ts.len() > 1 {
        let rest = ts.drop_first();
        assert forall|i: int| 0 <= i < rest.len() implies (#[trigger] rest[i]).kind
            != Tokens::StringVal by {
            assert(rest[i] == ts[i + 1]);
        }
        lemma_layout_without_strings(rest);
    }
}

/// Scanning, laying out and scanning again gives the same tokens: for
/// every source that scans without error from its start, the source made
/// by writing its tokens in order, strings in their quotes, with one
/// space between them has exactly the same tokens. Blanks and comments
/// are all that is lost.
pub proof fn lemma_round_trip(s: Seq<char>)
    requires
        tokens_from(s, 0) is Some,
    ensures
        tokens_from(laid_out(tokens_from(s, 0)->Some_0), 0) == tokens_from(s, 0),
{
    lemma_stream_is_well_formed(s, 0);
    lemma_layout_scans_back(tokens_from(s, 0)->Some_0);
}

/// For a source without strings the texts alone do: where a source scans
/// without error from its start and none of its tokens is a string, its
/// tokens' texts in order, with one space between them, have exactly the
/// same tokens.
pub proof fn lemma_round_trip_of_texts(s: Seq<char>)
    requires
        tokens_from(s, 0) is Some,
        forall|i: int|
            0 <= i < tokens_from(s, 0)->Some_0.len() ==> (#[trigger] tokens_from(
                s,
                0,
            )->Some_0[i]).kind != Tokens::StringVal,
    ensures
        tokens_from(spaced_texts(tokens_from(s, 0)->Some_0), 0) == tokens_from(s, 0),
{
    lemma_round_trip(s);
    lemma_layout_without_strings(tokens_from(s, 0)->Some_0);
}

} // verus!
