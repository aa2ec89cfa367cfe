use vstd::prelude::*;
use crate::text::{digit_char, letter_char, word_char, chars_of, string_of, is_alphabetic, is_alphanumeric, is_numeric};
use crate::token::{Token, is_keyword};
use vstd::string::StrSliceExecFns;

verus! {

/// Space, tab and carriage return: discarded between tokens.
pub open spec fn is_blank(c: char) -> bool {
    c == ' ' || c == '\t' || c == '\r'
}

/// A character that may continue an identifier.
pub open spec fn is_ident_char(c: char) -> bool {
    word_char(c) || c == '_'
}

/// A character that may continue a number literal.
pub open spec fn is_number_char(c: char) -> bool {
    digit_char(c) || c == '.'
}

/// The character at index `i` of `s`, if there is one.
pub open spec fn char_at(s: Seq<char>, i: int) -> Option<char> {
    if 0 <= i < s.len() {
        Some(s[i])
    } else {
        None
    }
}

/// Whether a `//` comment starts at index `p` of `s`.
pub open spec fn starts_comment(s: Seq<char>, p: int) -> bool {
    char_at(s, p) == Some('/') && char_at(s, p + 1) == Some('/')
}

/// The body of a string literal that starts right after its opening quote: the decoded text and
/// how many characters it takes, closing quote included. `\n` decodes to a line break; an
/// unterminated literal runs to the end.
pub open spec fn decode_string(s: Seq<char>) -> (Seq<char>, nat)
    decreases s.len(),
{
    if s.len() == 0 {
        (Seq::empty(), 0)
    } else if s[0] == '"' {
        (Seq::empty(), 1)
    } else if s[0] == '\\' && s.len() > 1 && s[1] == 'n' {
        let (d, n) = decode_string(s.subrange(2, s.len() as int));
        (seq!['\n'] + d, n + 2)
    } else {
        let (d, n) = decode_string(s.subrange(1, s.len() as int));
        (seq![s[0]] + d, n + 1)
    }
}

/// `run` is the longest run of characters satisfying `p` that starts at `from` in `s` and ends
/// before `to`.
pub open spec fn maximal_run(s: Seq<char>, from: int, to: int, p: spec_fn(char) -> bool) -> bool {
    &&& from <= to <= s.len()
    &&& forall|i: int| from <= i < to ==> p(#[trigger] s[i])
    &&& to == s.len() || !p(s[to])
}

/// The first index at or after `p` that holds no blank.
pub open spec fn skip_blanks(s: Seq<char>, p: int) -> int
    decreases s.len() - p,
{
    if 0 <= p < s.len() && is_blank(s[p]) {
        skip_blanks(s, p + 1)
    } else {
        p
    }
}

/// The first line break at or after `p`, or the end of `s`.
pub open spec fn line_end(s: Seq<char>, p: int) -> int
    decreases s.len() - p,
{
    if 0 <= p < s.len() && s[p] != '\n' {
        line_end(s, p + 1)
    } else {
        p
    }
}

/// Where scanning goes on from `p`: past blanks, and past a comment that follows them.
pub open spec fn after_gap(s: Seq<char>, p: int) -> int {
    let q = skip_blanks(s, p);
    if starts_comment(s, q) {
        line_end(s, q)
    } else {
        q
    }
}

/// Whether `3mol` is spelled at index `q`.
pub open spec fn three_mol_at(s: Seq<char>, q: int) -> bool {
    char_at(s, q) == Some('3') && char_at(s, q + 1) == Some('m') && char_at(s, q + 2) == Some('o')
        && char_at(s, q + 3) == Some('l')
}

/// The character at `q` starts no token and is dropped: a lone `&` or `|`, or a character
/// that belongs to nothing in the language.
pub open spec fn starts_nothing(s: Seq<char>, q: int) -> bool {
    let c = s[q];
    if c == '&' || c == '|' {
        char_at(s, q + 1) != Some(c)
    } else {
        !(c == '\n' || c == '"' || c == '(' || c == ')' || c == '+' || c == '-' || c == '*' || c
            == '/' || c == '%' || c == '=' || c == '!' || c == '>' || c == '<' || three_mol_at(s, q)
            || digit_char(c) || letter_char(c) || c == '_')
    }
}

/// Where the next token starts when scanning from `p` (the end of `s` when none is left).
pub open spec fn token_start(s: Seq<char>, p: int) -> int
    decreases s.len() - p,
{
    let q = after_gap(s, p);
    if p <= q < s.len() && starts_nothing(s, q) {
        token_start(s, q + 1)
    } else {
        q
    }
}

/// The keyword token that the word `w` spells.
pub open spec fn keyword_token(w: Seq<char>) -> Token {
    if w == "hayde"@ {
        Token::Hayde
    } else if w == "hiyye"@ {
        Token::Hiyye
    } else if w == "ong_no_cap"@ {
        Token::OngNoCap
    } else if w == "cap"@ {
        Token::Cap
    } else if w == "eza"@ {
        Token::Eza
    } else if w == "betshil"@ {
        Token::Betshil
    } else if w == "lakan"@ {
        Token::Lakan
    } else if w == "walla"@ {
        Token::Walla
    } else if w == "deal"@ {
        Token::Deal
    } else if w == "highkey"@ {
        Token::Highkey
    } else if w == "lowkey"@ {
        Token::Lowkey
    } else if w == "khalas"@ {
        Token::Khalas
    } else if w == "yalla"@ {
        Token::Yalla
    } else {
        Token::Waqif
    }
}

/// The token of `c` where `c` alone is a token.
pub open spec fn single(c: char) -> Option<Token> {
    if c == '\n' {
        Some(Token::Newline)
    } else if c == '(' {
        Some(Token::LeftParen)
    } else if c == ')' {
        Some(Token::RightParen)
    } else if c == '+' {
        Some(Token::Plus)
    } else if c == '-' {
        Some(Token::Minus)
    } else if c == '*' {
        Some(Token::Star)
    } else if c == '/' {
        Some(Token::Slash)
    } else if c == '%' {
        Some(Token::Percent)
    } else {
        None
    }
}

/// The operator that `c` starts: the first token if `=` follows, else the second.
pub open spec fn with_equals(c: char) -> Option<(Token, Token)> {
    if c == '=' {
        Some((Token::EqualEqual, Token::Hiyye))
    } else if c == '!' {
        Some((Token::NotEquals, Token::Not))
    } else if c == '>' {
        Some((Token::GreaterEq, Token::Greater))
    } else if c == '<' {
        Some((Token::LessEq, Token::Less))
    } else {
        None
    }
}

/// `t` is the token that starts at index `q` of `s` and ends before `end`.
pub open spec fn scanned(s: Seq<char>, q: int, t: Token, end: int) -> bool {
    let c = s[q];
    if single(c) is Some {
        t == single(c).unwrap() && end == q + 1
    } else if c == '"' {
        t matches Token::Text(x) && q < end && (x@, (end - q - 1) as nat) == decode_string(
            s.subrange(q + 1, s.len() as int),
        )
    } else if with_equals(c) is Some {
        if char_at(s, q + 1) == Some('=') {
            t == with_equals(c).unwrap().0 && end == q + 2
        } else {
            t == with_equals(c).unwrap().1 && end == q + 1
        }
    } else if c == '&' {
        t is And && end == q + 2
    } else if c == '|' {
        t is Or && end == q + 2
    } else if three_mol_at(s, q) {
        t is ThreeMol && end == q + 4
    } else if digit_char(c) {
        &&& maximal_run(s, q, end, |c: char| is_number_char(c))
        &&& t matches Token::Number(x) && x@ == s.subrange(q, end)
    } else {
        &&& maximal_run(s, q, end, |c: char| is_ident_char(c))
        &&& if is_keyword(s.subrange(q, end)) {
            t == keyword_token(s.subrange(q, end))
        } else {
            t matches Token::Identifier(x) && x@ == s.subrange(q, end)
        }
    }
}

/// `ts` are the tokens scanned from `p` on, in order: line breaks dropped, one `Eof` last.
pub open spec fn lexes(s: Seq<char>, p: int, ts: Seq<Token>) -> bool
    decreases ts.len(), s.len() - p,
{
    let q = token_start(s, p);
    if q >= s.len() {
        ts == seq![Token::Eof]
    } else if 0 <= p <= q {
        exists|t: Token, end: int|
            q < end <= s.len() && #[trigger] scanned(s, q, t, end) && if t is Newline {
                lexes(s, end, ts)
            } else {
                ts.len() > 0 && ts[0] == t && lexes(s, end, ts.drop_first())
            }
    } else {
        false
    }
}

proof fn lemma_skip_blanks(s: Seq<char>, p: int, q: int)
    requires
        0 <= p,
        maximal_run(s, p, q, |c: char| is_blank(c)),
    ensures
        q == skip_blanks(s, p),
    decreases q - p,
{
    if p < q {
        lemma_skip_blanks(s, p + 1, q);
    }
}

proof fn lemma_line_end(s: Seq<char>, p: int, q: int)
    requires
        0 <= p,
        maximal_run(s, p, q, |c: char| c != '\n'),
    ensures
        q == line_end(s, p),
    decreases q - p,
{
    if p < q {
        lemma_line_end(s, p + 1, q);
    }
}

/// Scans source text into tokens.
pub struct Lexer {
    pub input: Vec<char>,
    pub position: usize,
}

impl Lexer {
    /// Cursor within bounds.
    pub open spec fn wf(&self) -> bool {
        self.position <= self.input.len()
    }

    pub fn new(input: &str) -> (r: Lexer)
        ensures
            r.input@ == input@,
            r.position == 0,
            r.wf(),
    {
        Lexer { input: chars_of(input), position: 0 }
    }

    pub fn current_char(&self) -> (r: Option<char>)
        ensures
            r == char_at(self.input@, self.position as int),
    {
        if self.position < self.input.len() {
            Some(self.input[self.position])
        } else {
            None
        }
    }

    pub fn peek_char(&self, offset: usize) -> (r: Option<char>)
        requires
            self.wf(),
        ensures
            r == char_at(self.input@, self.position + offset),
    {
        if offset < self.input.len() - self.position {
            Some(self.input[self.position + offset])
        } else {
            None
        }
    }

    pub fn advance(&mut self)
        requires
            old(self).position < old(self).input.len(),
        ensures
            final(self).position == old(self).position + 1,
            final(self).input == old(self).input,
    {
        self.position = self.position + 1;
    }

    pub fn skip_whitespace(&mut self)
        requires
            old(self).wf(),
        ensures
            final(self).wf(),
            final(self).input == old(self).input,
            maximal_run(
                old(self).input@,
                old(self).position as int,
                final(self).position as int,
                |c: char| is_blank(c),
            ),
    {
        while self.position < self.input.len() && (self.input[self.position] == ' '
            || self.input[self.position] == '\t' || self.input[self.position] == '\r')
            invariant
                self.wf(),
                self.input == old(self).input,
                old(self).position <= self.position,
                forall|i: int| old(self).position <= i < self.position ==> is_blank(#[trigger] self.input@[i]),
            decreases self.input.len() - self.position,
        {
            self.advance();
        }
    }

    pub fn skip_comment(&mut self)
        requires
            old(self).wf(),
        ensures
            final(self).wf(),
            final(self).input == old(self).input,
            starts_comment(old(self).input@, old(self).position as int) ==> maximal_run(
                old(self).input@,
                old(self).position as int,
                final(self).position as int,
                |c: char| c != '\n',
            ),
            !starts_comment(old(self).input@, old(self).position as int) ==> final(self).position == old(self).position,
    {
        if self.current_char() == Some('/') && self.peek_char(1) == Some('/') {
            while self.position < self.input.len() && self.input[self.position] != '\n'
                invariant
                    self.wf(),
                    self.input == old(self).input,
                    old(self).position <= self.position,
                    forall|i: int| old(self).position <= i < self.position ==> #[trigger] self.input@[i] != '\n',
                decreases self.input.len() - self.position,
            {
                self.advance();
            }
        }
    }

    /// Reads a string literal whose opening quote is the current character.
    pub fn read_string(&mut self) -> (r: String)
        requires
            old(self).wf(),
            char_at(old(self).input@, old(self).position as int) == Some('"'),
        ensures
            final(self).wf(),
            final(self).input == old(self).input,
            old(self).position < final(self).position,
            (r@, (final(self).position - old(self).position - 1) as nat) == decode_string(
                old(self).input@.subrange(old(self).position + 1, old(self).input@.len() as int),
            ),
    {
        let ghost s = self.input@;
        let ghost start = self.position + 1;
        self.advance();
        let mut out: Vec<char> = Vec::new();
        let mut closed = false;
        while !closed && self.position < self.input.len()
            invariant
                self.wf(),
                self.input == old(self).input,
                s == self.input@,
                start <= self.position,
                closed ==> (out@, (self.position - start) as nat) == decode_string(s.subrange(start, s.len() as int)),
                !closed ==> ({
                    let (d, n) = decode_string(s.subrange(self.position as int, s.len() as int));
                    decode_string(s.subrange(start, s.len() as int)) == (out@ + d, ((self.position - start) + n) as nat)
                }),
            decreases self.input.len() - self.position,
        {
            let ch = self.input[self.position];
            let ghost rest = s.subrange(self.position as int, s.len() as int);
            let ghost before = out@;
            if ch == '"' {
                self.advance();
                closed = true;
                assert(decode_string(rest) == (Seq::<char>::empty(), 1nat));
                assert(out@ + Seq::<char>::empty() =~= out@);
            } else if ch == '\\' && self.peek_char(1) == Some('n') {
                assert(rest.subrange(2, rest.len() as int) =~= s.subrange(self.position + 2, s.len() as int));
                out.push('\n');
                self.advance();
                self.advance();
                let ghost d = decode_string(s.subrange(self.position as int, s.len() as int)).0;
                assert(out@ + d =~= before + (seq!['\n'] + d));
            } else {
                assert(rest.subrange(1, rest.len() as int) =~= s.subrange(self.position + 1, s.len() as int));
                out.push(ch);
                self.advance();
                let ghost d = decode_string(s.subrange(self.position as int, s.len() as int)).0;
                assert(out@ + d =~= before + (seq![ch] + d));
            }
        }
        string_of(&out)
    }

    /// Reads the maximal run of digits and decimal points at the cursor, as written.
    pub fn read_number(&mut self) -> (r: String)
        requires
            old(self).wf(),
        ensures
            final(self).wf(),
            final(self).input == old(self).input,
            maximal_run(
                old(self).input@,
                old(self).position as int,
                final(self).position as int,
                |c: char| is_number_char(c),
            ),
            r@ == old(self).input@.subrange(old(self).position as int, final(self).position as int),
    {
        let mut out: Vec<char> = Vec::new();
        while self.position < self.input.len() && (is_numeric(self.input[self.position])
            || self.input[self.position] == '.')
            invariant
                self.wf(),
                self.input == old(self).input,
                old(self).position <= self.position,
                forall|i: int| old(self).position <= i < self.position ==> is_number_char(#[trigger] self.input@[i]),
                out@ == self.input@.subrange(old(self).position as int, self.position as int),
            decreases self.input.len() - self.position,
        {
            out.push(self.input[self.position]);
            self.advance();
            assert(out@ =~= self.input@.subrange(old(self).position as int, self.position as int));
        }
        string_of(&out)
    }

    /// Reads the maximal run of identifier characters at the cursor.
    pub fn read_identifier(&mut self) -> (r: String)
        requires
            old(self).wf(),
        ensures
            final(self).wf(),
            final(self).input == old(self).input,
            maximal_run(
                old(self).input@,
                old(self).position as int,
                final(self).position as int,
                |c: char| is_ident_char(c),
            ),
            r@ == old(self).input@.subrange(old(self).position as int, final(self).position as int),
    {
        let mut out: Vec<char> = Vec::new();
        while self.position < self.input.len() && (is_alphanumeric(self.input[self.position])
            || self.input[self.position] == '_')
            invariant
                self.wf(),
                self.input == old(self).input,
                old(self).position <= self.position,
                forall|i: int| old(self).position <= i < self.position ==> is_ident_char(#[trigger] self.input@[i]),
                out@ == self.input@.subrange(old(self).position as int, self.position as int),
            decreases self.input.len() - self.position,
        {
            out.push(self.input[self.position]);
            self.advance();
            assert(out@ =~= self.input@.subrange(old(self).position as int, self.position as int));
        }
        string_of(&out)
    }

    /// Advances past one character and returns `t`.
    fn take(&mut self, t: Token) -> (r: Token)
        requires
            old(self).position < old(self).input.len(),
        ensures
            r == t,
            final(self).position == old(self).position + 1,
            final(self).input == old(self).input,
    {
        self.advance();
        t
    }

    /// Advances past one character, and past a second one when it is `second`: `two` if both
    /// were taken, else `one`.
    fn take_pair(&mut self, second: char, two: Token, one: Token) -> (r: Token)
        requires
            old(self).position < old(self).input.len(),
        ensures
            final(self).input == old(self).input,
            final(self).wf(),
            char_at(old(self).input@, old(self).position + 1) == Some(second) ==> r == two
                && final(self).position == old(self).position + 2,
            char_at(old(self).input@, old(self).position + 1) != Some(second) ==> r == one
                && final(self).position == old(self).position + 1,
    {
        self.advance();
        if self.current_char() == Some(second) {
            self.advance();
            two
        } else {
            one
        }
    }

    /// Scans the next token, skipping blanks, a comment and characters that start no token.
    pub fn next_token(&mut self) -> (r: Token)
        requires
            old(self).wf(),
        ensures
            final(self).wf(),
            final(self).input == old(self).input,
            old(self).position <= final(self).position,
            ({
                let s = old(self).input@;
                let q = token_start(s, old(self).position as int);
                &&& old(self).position <= q <= s.len()
                &&& q == s.len() ==> r is Eof && final(self).position == s.len()
                &&& q < s.len() ==> scanned(s, q, r, final(self).position as int) && q < final(self).position
            }),
            r is Eof ==> final(self).position == final(self).input.len(),
            !(r is Eof) ==> old(self).position < final(self).position,
    {
        let ghost s = self.input@;
        loop
            invariant
                self.wf(),
                self.input == old(self).input,
                s == self.input@,
                old(self).position <= self.position,
                token_start(s, old(self).position as int) == token_start(s, self.position as int),
            decreases self.input.len() - self.position,
        {
            let ghost p = self.position as int;
            self.skip_whitespace();
            proof {
                lemma_skip_blanks(s, p, self.position as int);
            }
            let ghost b = self.position as int;
            self.skip_comment();
            proof {
                if starts_comment(s, b) {
                    lemma_line_end(s, b, self.position as int);
                }
                assert(self.position as int == after_gap(s, p));
            }
            if self.position >= self.input.len() {
                return Token::Eof;
            }
            let ch = self.input[self.position];
            if ch == '\n' {
                return self.take(Token::Newline);
            } else if ch == '"' {
                let s = self.read_string();
                return Token::Text(s);
            } else if ch == '(' {
                return self.take(Token::LeftParen);
            } else if ch == ')' {
                return self.take(Token::RightParen);
            } else if ch == '+' {
                return self.take(Token::Plus);
            } else if ch == '-' {
                return self.take(Token::Minus);
            } else if ch == '*' {
                return self.take(Token::Star);
            } else if ch == '/' {
                return self.take(Token::Slash);
            } else if ch == '%' {
                return self.take(Token::Percent);
            } else if ch == '=' {
                return self.take_pair('=', Token::EqualEqual, Token::Hiyye);
            } else if ch == '!' {
                return self.take_pair('=', Token::NotEquals, Token::Not);
            } else if ch == '>' {
                return self.take_pair('=', Token::GreaterEq, Token::Greater);
            } else if ch == '<' {
                return self.take_pair('=', Token::LessEq, Token::Less);
            } else if ch == '&' || ch == '|' {
                self.advance();
                if self.current_char() == Some(ch) {
                    self.advance();
                    return if ch == '&' {
                        Token::And
                    } else {
                        Token::Or
                    };
                }
            } else if ch == '3' && self.peek_char(1) == Some('m') && self.peek_char(2) == Some('o')
                && self.peek_char(3) == Some('l') {
                self.advance();
                self.advance();
                self.advance();
                self.advance();
                return Token::ThreeMol;
            } else if is_numeric(ch) {
                let n = self.read_number();
                return Token::Number(n);
            } else if is_alphabetic(ch) || ch == '_' {
                let w = self.read_identifier();
                return keyword_or_identifier(w);
            } else {
                self.advance();
            }
        }
    }

    /// Scans the whole input: every token in order, line breaks dropped, one `Eof` last.
    pub fn tokenize(&mut self) -> (r: Vec<Token>)
        requires
            old(self).wf(),
        ensures
            lexes(old(self).input@, old(self).position as int, r@),
            r@.len() > 0,
            r@.last() is Eof,
            forall|i: int| 0 <= i < r@.len() - 1 ==> !(#[trigger] r@[i] is Eof) && !(r@[i] is Newline),
    {
        let ghost s = self.input@;
        let ghost p0 = self.position as int;
        let mut tokens: Vec<Token> = Vec::new();
        loop
            invariant
                self.wf(),
                s == self.input@,
                s == old(self).input@,
                p0 == old(self).position,
                p0 <= self.position,
                forall|i: int| 0 <= i < tokens@.len() ==> !(#[trigger] tokens@[i] is Eof) && !(tokens@[i] is Newline),
                forall|rest: Seq<Token>| #[trigger] lexes(s, self.position as int, rest) ==> lexes(s, p0, tokens@ + rest),
            decreases self.input.len() - self.position,
        {
            let ghost p = self.position as int;
            let ghost before = tokens@;
            let t = self.next_token();
            let ghost end = self.position as int;
            if matches!(t, Token::Eof) {
                tokens.push(t);
                proof {
                    let q = token_start(s, p);
                    assert(q >= s.len());
                    assert(lexes(s, p, seq![Token::Eof]));
                    assert(before + seq![Token::Eof] =~= tokens@);
                }
                return tokens;
            }
            if !matches!(t, Token::Newline) {
                tokens.push(t);
            }
            proof {
                let q = token_start(s, p);
                assert(q < s.len());
                assert forall|rest: Seq<Token>| #[trigger] lexes(s, end, rest) implies lexes(s, p0, tokens@ + rest) by {
                    if t is Newline {
                        assert(scanned(s, q, t, end));
                        assert(lexes(s, p, rest));
                    } else {
                        let x = seq![t] + rest;
                        assert(x.drop_first() =~= rest);
                        assert(scanned(s, q, t, end));
                        assert(lexes(s, p, x));
                        assert(before + x =~= tokens@ + rest);
                    }
                }
            }
        }
    }
}

/// Whether `w` holds exactly the characters of `lit`.
fn word_is(w: &Vec<char>, lit: &str) -> (r: bool)
    ensures
        r == (w@ == lit@),
{
    let n = lit.unicode_len();
    if w.len() != n {
        return false;
    }
    let mut i: usize = 0;
    while i < n
        invariant
            n == lit@.len(),
            w@.len() == n,
            i <= n,
            forall|j: int| 0 <= j < i ==> w@[j] == lit@[j],
        decreases n - i,
    {
        if w[i] != lit.get_char(i) {
            return false;
        }
        i = i + 1;
    }
    assert(w@ =~= lit@);
    true
}

/// The keyword token that `w` spells, or an identifier named `w`.
fn keyword_or_identifier(w: String) -> (r: Token)
    ensures
        r matches Token::Identifier(n) ==> n@ == w@,
        r is Identifier <==> !is_keyword(w@),
        is_keyword(w@) ==> r == keyword_token(w@),
        !(r is Eof) && !(r is Newline),
{
    let v = chars_of(w.as_str());
    if word_is(&v, "hayde") {
        Token::Hayde
    } else if word_is(&v, "hiyye") {
        Token::Hiyye
    } else if word_is(&v, "ong_no_cap") {
        Token::OngNoCap
    } else if word_is(&v, "cap") {
        Token::Cap
    } else if word_is(&v, "eza") {
        Token::Eza
    } else if word_is(&v, "betshil") {
        Token::Betshil
    } else if word_is(&v, "lakan") {
        Token::Lakan
    } else if word_is(&v, "walla") {
        Token::Walla
    } else if word_is(&v, "deal") {
        Token::Deal
    } else if word_is(&v, "highkey") {
        Token::Highkey
    } else if word_is(&v, "lowkey") {
        Token::Lowkey
    } else if word_is(&v, "khalas") {
        Token::Khalas
    } else if word_is(&v, "yalla") {
        Token::Yalla
    } else if word_is(&v, "waqif") {
        Token::Waqif
    } else {
        Token::Identifier(w)
    }
}

} // verus!
