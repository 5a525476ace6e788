//! The lexer: turns one input line into a sequence of tokens.
//!
//! Quoted literals keep their surrounding quote characters: `"a b"` lexes to
//! the literal `"a b"`, both quotes included. An unterminated quote runs to the
//! end of the line.
use vstd::prelude::*;

use crate::unicode::{alphanumeric, is_alphanumeric};

verus! {

#[derive(Debug, PartialEq, Eq)]
pub enum Token {
    Pipe,
    Greater,
    Less,
    Literal(String),
    Eof,
}

/// The mathematical value of a token.
pub ghost enum TokenView {
    Pipe,
    Greater,
    Less,
    Literal(Seq<char>),
    Eof,
}

impl View for Token {
    type V = TokenView;

    open spec fn view(&self) -> TokenView {
        match self {
            Token::Pipe => TokenView::Pipe,
            Token::Greater => TokenView::Greater,
            Token::Less => TokenView::Less,
            Token::Literal(s) => TokenView::Literal(s@),
            Token::Eof => TokenView::Eof,
        }
    }
}

/// The view of each token of a sequence.
pub open spec fn tokens_view(v: Seq<Token>) -> Seq<TokenView> {
    v.map_values(|t: Token| t@)
}

/// Characters skipped between tokens.
pub open spec fn is_blank(c: char) -> bool {
    c == ' ' || c == '\n' || c == '\t'
}

/// The characters that form a token of their own.
pub open spec fn is_reserved(c: char) -> bool {
    c == '|' || c == '>' || c == '<'
}

/// Punctuation allowed inside a bare literal.
pub open spec fn is_literal_punct(c: char) -> bool {
    c == '_' || c == '-' || c == '=' || c == '.' || c == '/' || c == ':' || c == '{' || c == '}'
        || c == '\\' || c == '*' || c == ';'
}

/// Characters that continue a bare literal.
pub open spec fn literal_char(c: char) -> bool {
    alphanumeric(c) || is_literal_punct(c)
}

/// Characters that may begin a literal: those of a bare literal, and the quote.
pub open spec fn literal_start(c: char) -> bool {
    literal_char(c) || c == '"'
}

/// The end of the bare literal whose remaining characters begin at `i`.
pub open spec fn word_end(s: Seq<char>, i: int) -> int
    decreases s.len() - i,
{
    if 0 <= i < s.len() && literal_char(s[i]) {
        word_end(s, i + 1)
    } else {
        i
    }
}

/// The index just past the closing quote of a quoted literal whose content
/// begins at `i`, or the end of the input when no closing quote follows.
pub open spec fn quote_end(s: Seq<char>, i: int) -> int
    decreases s.len() - i,
{
    if 0 <= i < s.len() {
        if s[i] == '"' {
            i + 1
        } else {
            quote_end(s, i + 1)
        }
    } else {
        s.len() as int
    }
}

/// Puts `t` in front of the tokens of a successful result.
pub open spec fn prepend(t: TokenView, r: Result<Seq<TokenView>, char>) -> Result<
    Seq<TokenView>,
    char,
> {
    match r {
        Ok(ts) => Ok(seq![t] + ts),
        Err(c) => Err(c),
    }
}

/// The tokens of `s` from index `i` on, or the first character that cannot
/// begin a token.
pub open spec fn lex_from(s: Seq<char>, i: int) -> Result<Seq<TokenView>, char>
    decreases s.len() - i,
{
    if i < 0 || i >= s.len() {
        Ok(seq![TokenView::Eof])
    } else {
        let c = s[i];
        if is_blank(c) {
            lex_from(s, i + 1)
        } else if c == '|' {
            prepend(TokenView::Pipe, lex_from(s, i + 1))
        } else if c == '>' {
            prepend(TokenView::Greater, lex_from(s, i + 1))
        } else if c == '<' {
            prepend(TokenView::Less, lex_from(s, i + 1))
        } else if literal_start(c) {
            let e = if c == '"' {
                quote_end(s, i + 1)
            } else {
                word_end(s, i + 1)
            };
            if i < e <= s.len() {
                prepend(TokenView::Literal(s.subrange(i, e)), lex_from(s, e))
            } else {
                Err(c)
            }
        } else {
            Err(c)
        }
    }
}

/// The tokens of a whole line, or the first character that cannot begin one.
pub open spec fn lex(s: Seq<char>) -> Result<Seq<TokenView>, char> {
    lex_from(s, 0)
}

/// The message that reports a character that cannot begin a token.
pub open spec fn unexpected_message(c: char) -> Seq<char> {
    "unexpected token: "@ + seq![c]
}

/// What the scanner returns for the line `s` from index `i` on.
pub open spec fn scan_result(s: Seq<char>, i: int) -> Result<Seq<TokenView>, Seq<char>> {
    match lex_from(s, i) {
        Ok(ts) => Ok(ts),
        Err(c) => Err(unexpected_message(c)),
    }
}

/// The view of what the scanner returned.
pub open spec fn outcome_view(r: Result<Vec<Token>, String>) -> Result<Seq<TokenView>, Seq<char>> {
    match r {
        Ok(v) => Ok(tokens_view(v@)),
        Err(e) => Err(e@),
    }
}

/// Puts `p` in front of the tokens of a successful result.
pub open spec fn prepend_all(p: Seq<TokenView>, r: Result<Seq<TokenView>, char>) -> Result<
    Seq<TokenView>,
    char,
> {
    match r {
        Ok(ts) => Ok(p + ts),
        Err(c) => Err(c),
    }
}

proof fn lemma_prepend_all_push(p: Seq<TokenView>, t: TokenView, r: Result<Seq<TokenView>, char>)
    ensures
        prepend_all(p, prepend(t, r)) == prepend_all(p.push(t), r),
{
    if let Ok(ts) = r {
        assert(p + (seq![t] + ts) =~= p.push(t) + ts);
    }
}

pub proof fn lemma_word_end_bounds(s: Seq<char>, i: int)
    requires
        0 <= i <= s.len(),
    ensures
        i <= word_end(s, i) <= s.len(),
        forall|k: int| i <= k < word_end(s, i) ==> literal_char(#[trigger] s[k]),
        word_end(s, i) < s.len() ==> !literal_char(s[word_end(s, i)]),
    decreases s.len() - i,
{
    if i < s.len() && literal_char(s[i]) {
        lemma_word_end_bounds(s, i + 1);
    }
}

pub proof fn lemma_quote_end_bounds(s: Seq<char>, i: int)
    requires
        0 <= i <= s.len(),
    ensures
        i <= quote_end(s, i) <= s.len(),
    decreases s.len() - i,
{
    if i < s.len() && s[i] != '"' {
        lemma_quote_end_bounds(s, i + 1);
    }
}

/// A line of blanks alone lexes to the end marker alone.
pub proof fn lemma_blank_line(s: Seq<char>)
    requires
        forall|k: int| 0 <= k < s.len() ==> is_blank(#[trigger] s[k]),
    ensures
        lex(s) == Ok::<Seq<TokenView>, char>(seq![TokenView::Eof]),
{
    lemma_blank_from(s, 0);
}

proof fn lemma_blank_from(s: Seq<char>, i: int)
    requires
        0 <= i <= s.len(),
        forall|k: int| 0 <= k < s.len() ==> is_blank(#[trigger] s[k]),
    ensures
        lex_from(s, i) == Ok::<Seq<TokenView>, char>(seq![TokenView::Eof]),
    decreases s.len() - i,
{
    if i < s.len() {
        lemma_blank_from(s, i + 1);
    }
}

/// A non-empty line made only of literal characters lexes to that one literal,
/// followed by the end marker.
pub proof fn lemma_single_literal(s: Seq<char>)
    requires
        s.len() > 0,
        forall|k: int| 0 <= k < s.len() ==> literal_char(#[trigger] s[k]),
    ensures
        lex(s) == Ok::<Seq<TokenView>, char>(seq![TokenView::Literal(s), TokenView::Eof]),
{
    lemma_word_runs_to_end(s, 1);
    assert(s.subrange(0, s.len() as int) =~= s);
    assert(lex_from(s, s.len() as int) == Ok::<Seq<TokenView>, char>(seq![TokenView::Eof]));
    assert(seq![TokenView::Literal(s)] + seq![TokenView::Eof] =~= seq![
        TokenView::Literal(s),
        TokenView::Eof,
    ]);
}

proof fn lemma_word_runs_to_end(s: Seq<char>, i: int)
    requires
        0 <= i <= s.len(),
        forall|k: int| 0 <= k < s.len() ==> literal_char(#[trigger] s[k]),
    ensures
        word_end(s, i) == s.len(),
    decreases s.len() - i,
{
    if i < s.len() {
        lemma_word_runs_to_end(s, i + 1);
    }
}

/// A line without quotes that holds a character which is neither blank,
/// reserved, nor allowed in a literal fails to lex.
pub proof fn lemma_bad_char_fails(s: Seq<char>, k: int)
    requires
        0 <= k < s.len(),
        !is_blank(s[k]),
        !is_reserved(s[k]),
        !literal_start(s[k]),
        forall|j: int| 0 <= j < s.len() ==> #[trigger] s[j] != '"',
    ensures
        lex(s) is Err,
{
    lemma_bad_char_from(s, k, 0);
}

proof fn lemma_bad_char_from(s: Seq<char>, k: int, i: int)
    requires
        0 <= i <= k < s.len(),
        !is_blank(s[k]),
        !is_reserved(s[k]),
        !literal_start(s[k]),
        forall|j: int| 0 <= j < s.len() ==> #[trigger] s[j] != '"',
    ensures
        lex_from(s, i) is Err,
    decreases k - i,
{
    if i < k {
        let c = s[i];
        if is_blank(c) || is_reserved(c) {
            lemma_bad_char_from(s, k, i + 1);
        } else if literal_start(c) {
            lemma_word_end_bounds(s, i + 1);
            let e = word_end(s, i + 1);
            if e > k {
                assert(literal_char(s[k]));
            }
            lemma_bad_char_from(s, k, e);
        }
    }
}

/// A character that can neither be skipped, nor form a token, nor begin one.
pub open spec fn is_bad(c: char) -> bool {
    !is_blank(c) && !is_reserved(c) && !literal_start(c)
}

/// Whether a bad character stands in `s` from `i` on, outside quoted text;
/// `quoted` says whether a quote is open at `i`.
pub open spec fn bad_outside_quotes(s: Seq<char>, i: int, quoted: bool) -> bool
    decreases s.len() - i,
{
    if i < 0 || i >= s.len() {
        false
    } else if quoted {
        bad_outside_quotes(s, i + 1, s[i] != '"')
    } else if s[i] == '"' {
        bad_outside_quotes(s, i + 1, true)
    } else {
        is_bad(s[i]) || bad_outside_quotes(s, i + 1, false)
    }
}

proof fn lemma_quote_skip(s: Seq<char>, j: int)
    requires
        0 <= j <= s.len(),
    ensures
        bad_outside_quotes(s, j, true) == bad_outside_quotes(s, quote_end(s, j), false),
    decreases s.len() - j,
{
    if j < s.len() && s[j] != '"' {
        lemma_quote_skip(s, j + 1);
    }
}

proof fn lemma_word_skip(s: Seq<char>, j: int)
    requires
        0 <= j <= s.len(),
    ensures
        bad_outside_quotes(s, j, false) == bad_outside_quotes(s, word_end(s, j), false),
    decreases s.len() - j,
{
    if j < s.len() && literal_char(s[j]) {
        lemma_word_skip(s, j + 1);
    }
}

proof fn lemma_fails_from(s: Seq<char>, i: int)
    requires
        0 <= i <= s.len(),
    ensures
        lex_from(s, i) is Err <==> bad_outside_quotes(s, i, false),
    decreases s.len() - i,
{
    if i < s.len() {
        let c = s[i];
        if is_blank(c) || is_reserved(c) {
            lemma_fails_from(s, i + 1);
        } else if c == '"' {
            lemma_quote_end_bounds(s, i + 1);
            lemma_quote_skip(s, i + 1);
            lemma_fails_from(s, quote_end(s, i + 1));
        } else if literal_start(c) {
            lemma_word_end_bounds(s, i + 1);
            lemma_word_skip(s, i + 1);
            lemma_fails_from(s, word_end(s, i + 1));
        }
    }
}

/// A line fails to lex exactly when, outside quoted text, it holds a
/// character that can neither be skipped, nor form a token, nor begin one.
pub proof fn lemma_fails_iff_bad_char(s: Seq<char>)
    ensures
        lex(s) is Err <==> bad_outside_quotes(s, 0, false),
{
    lemma_fails_from(s, 0);
}

/// Every successful lex ends with the end marker, and only there.
pub proof fn lemma_ends_with_eof(s: Seq<char>, i: int)
    requires
        lex_from(s, i) is Ok,
    ensures
        ({
            let ts = lex_from(s, i)->Ok_0;
            &&& ts.len() > 0
            &&& ts.last() == TokenView::Eof
            &&& forall|j: int| 0 <= j < ts.len() - 1 ==> !(#[trigger] ts[j] is Eof)
        }),
    decreases s.len() - i,
{
    if 0 <= i < s.len() {
        let c = s[i];
        if is_blank(c) {
            lemma_ends_with_eof(s, i + 1);
        } else if is_reserved(c) {
            lemma_ends_with_eof(s, i + 1);
            let rest = lex_from(s, i + 1)->Ok_0;
            let ts = lex_from(s, i)->Ok_0;
            assert forall|j: int| 0 <= j < ts.len() - 1 implies !(#[trigger] ts[j] is Eof) by {
                if j > 0 {
                    assert(ts[j] == rest[j - 1]);
                }
            }
        } else {
            let e = if c == '"' {
                quote_end(s, i + 1)
            } else {
                word_end(s, i + 1)
            };
            lemma_ends_with_eof(s, e);
            let rest = lex_from(s, e)->Ok_0;
            let ts = lex_from(s, i)->Ok_0;
            assert forall|j: int| 0 <= j < ts.len() - 1 implies !(#[trigger] ts[j] is Eof) by {
                if j > 0 {
                    assert(ts[j] == rest[j - 1]);
                }
            }
        }
    }
}

/// A lexer over one line of input.
pub struct Scanner<'a> {
    source: &'a str,
    chars: Vec<char>,
    pos: usize,
}

impl<'a> Scanner<'a> {
    /// The characters of the line.
    pub closed spec fn input(&self) -> Seq<char> {
        self.chars@
    }

    /// The index of the next character to scan.
    pub closed spec fn position(&self) -> int {
        self.pos as int
    }

    pub closed spec fn wf(&self) -> bool {
        &&& self.chars@ == self.source@
        &&& self.pos <= self.chars@.len()
    }

    pub fn new(source: &'a str) -> (r: Scanner<'a>)
        ensures
            r.wf(),
            r.input() == source@,
            r.position() == 0,
    {
        let n = source.unicode_len();
        let mut chars: Vec<char> = Vec::new();
        let mut i: usize = 0;
        while i < n
            invariant
                n == source@.len(),
                i <= n,
                chars@ == source@.subrange(0, i as int),
            decreases n - i,
        {
            chars.push(source.get_char(i));
            i += 1;
        }
        proof {
            assert(chars@ =~= source@);
        }
        Scanner { source, chars, pos: 0 }
    }

    /// Scans the rest of the line. On success the tokens end with `Eof`; a
    /// character that cannot begin a token fails the whole line.
    pub fn scan_tokens(&mut self) -> (r: Result<Vec<Token>, String>)
        requires
            old(self).wf(),
        ensures
            final(self).wf(),
            final(self).input() == old(self).input(),
            outcome_view(r) == scan_result(old(self).input(), old(self).position()),
    {
        let ghost s = self.chars@;
        let ghost start = self.pos as int;
        let mut tokens: Vec<Token> = Vec::new();
        let n = self.chars.len();
        while self.pos < n
            invariant
                self.wf(),
                self.chars@ == s,
                s == old(self).chars@,
                self.source == old(self).source,
                start == old(self).pos,
                n == s.len(),
                start <= self.pos,
                lex_from(s, start) == prepend_all(tokens_view(tokens@), lex_from(s, self.pos as int)),
            decreases n - self.pos,
        {
            let begin = self.pos;
            let c = self.chars[begin];
            self.pos = self.pos + 1;
            if c == ' ' || c == '\n' || c == '\t' {
                continue;
            }
            proof {
                lemma_word_end_bounds(s, begin + 1);
                lemma_quote_end_bounds(s, begin + 1);
            }
            let token = if c == '|' {
                Token::Pipe
            } else if c == '>' {
                Token::Greater
            } else if c == '<' {
                Token::Less
            } else {
                if !self.is_valid_literal_start(&c) {
                    let msg = String::from_str("unexpected token: ");
                    let ch = self.source.substring_char(begin, self.pos);
                    proof {
                        assert(ch@ =~= seq![c]);
                    }
                    return Err(msg.concat(ch));
                }
                Token::Literal(self.scan_literal(c))
            };
            proof {
                lemma_prepend_all_push(tokens_view(tokens@), token@, lex_from(s, self.pos as int));
            }
            let ghost before = tokens@;
            tokens.push(token);
            proof {
                assert(tokens_view(tokens@) =~= tokens_view(before).push(token@));
            }
        }
        proof {
            let ghost before = tokens_view(tokens@);
            assert(before + seq![TokenView::Eof] =~= before.push(TokenView::Eof));
        }
        let ghost before = tokens@;
        tokens.push(Token::Eof);
        proof {
            assert(tokens_view(tokens@) =~= tokens_view(before).push(TokenView::Eof));
        }
        Ok(tokens)
    }

    fn scan_literal(&mut self, start: char) -> (r: String)
        requires
            old(self).wf(),
            1 <= old(self).pos,
            old(self).chars@[old(self).pos - 1] == start,
            literal_start(start),
        ensures
            final(self).wf(),
            final(self).chars@ == old(self).chars@,
            final(self).source == old(self).source,
            final(self).pos as int == (if start == '"' {
                quote_end(old(self).chars@, old(self).pos as int)
            } else {
                word_end(old(self).chars@, old(self).pos as int)
            }),
            r@ == old(self).chars@.subrange(old(self).pos - 1, final(self).pos as int),
    {
        if start == '"' {
            return self.scan_string();
        }
        let ghost s = self.chars@;
        let begin = self.pos - 1;
        let n = self.chars.len();
        proof {
            lemma_word_end_bounds(s, self.pos as int);
        }
        let mut more = true;
        while self.pos < n && more
            invariant
                self.wf(),
                self.chars@ == s,
                s == old(self).chars@,
                self.source == old(self).source,
                n == s.len(),
                begin < self.pos,
                begin + 1 == old(self).pos,
                word_end(s, self.pos as int) == word_end(s, begin + 1),
                !more ==> self.pos < n && !literal_char(s[self.pos as int]),
            decreases n - self.pos + (if more { 1int } else { 0int }),
        {
            let c = self.chars[self.pos];
            more = self.is_valid_literal_char(&c);
            if more {
                self.pos = self.pos + 1;
            }
        }
        String::from_str(self.source.substring_char(begin, self.pos))
    }

    fn scan_string(&mut self) -> (r: String)
        requires
            old(self).wf(),
            1 <= old(self).pos,
            old(self).chars@[old(self).pos - 1] == '"',
        ensures
            final(self).wf(),
            final(self).chars@ == old(self).chars@,
            final(self).source == old(self).source,
            final(self).pos as int == quote_end(old(self).chars@, old(self).pos as int),
            r@ == old(self).chars@.subrange(old(self).pos - 1, final(self).pos as int),
    {
        let ghost s = self.chars@;
        let begin = self.pos - 1;
        let n = self.chars.len();
        let mut closed = false;
        while self.pos < n && !closed
            invariant
                self.wf(),
                self.chars@ == s,
                s == old(self).chars@,
                self.source == old(self).source,
                n == s.len(),
                begin < self.pos,
                begin + 1 == old(self).pos,
                quote_end(s, begin + 1) == if closed {
                    self.pos as int
                } else {
                    quote_end(s, self.pos as int)
                },
            decreases n - self.pos,
        {
            let c = self.chars[self.pos];
            self.pos = self.pos + 1;
            closed = c == '"';
        }
        String::from_str(self.source.substring_char(begin, self.pos))
    }

    fn is_valid_literal_char(&self, c: &char) -> (r: bool)
        ensures
            r == literal_char(*c),
    {
        let c = *c;
        is_alphanumeric(c) || c == '_' || c == '-' || c == '=' || c == '.' || c == '/' || c == ':'
            || c == '{' || c == '}' || c == '\\' || c == '*' || c == ';'
    }

    fn is_valid_literal_start(&self, c: &char) -> (r: bool)
        ensures
            r == literal_start(*c),
    {
        self.is_valid_literal_char(c) || *c == '"'
    }
}

} // verus!
