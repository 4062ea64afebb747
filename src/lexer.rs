use vstd::prelude::*;
use crate::error::CompileError;
use crate::text::{chars_of, string_of};
use crate::token::{Span, SpannedToken, Token};

verus! {

/// White space as Unicode's `White_Space` property defines it.
pub open spec fn is_space(c: char) -> bool {
    c == '\t' || c == '\n' || c == '\u{0B}' || c == '\u{0C}' || c == '\r' || c == ' ' || c == '\u{85}'
        || c == '\u{A0}' || c == '\u{1680}' || ('\u{2000}' <= c && c <= '\u{200A}') || c == '\u{2028}'
        || c == '\u{2029}' || c == '\u{202F}' || c == '\u{205F}' || c == '\u{3000}'
}

pub open spec fn is_digit(c: char) -> bool {
    48 <= (c as u32) <= 57
}

/// A character that may start a name.
pub open spec fn is_word_start(c: char) -> bool {
    ('a' <= c && c <= 'z') || ('A' <= c && c <= 'Z') || c == '_'
}

/// A character that may continue a name.
pub open spec fn is_word_char(c: char) -> bool {
    is_word_start(c) || is_digit(c)
}

/// The line of position `p`, counting from 1.
pub open spec fn line_at(s: Seq<char>, p: int) -> int
    decreases p,
{
    if p <= 0 {
        1
    } else if s[p - 1] == '\n' {
        line_at(s, p - 1) + 1
    } else {
        line_at(s, p - 1)
    }
}

/// The column of position `p`, counting from 1.
pub open spec fn col_at(s: Seq<char>, p: int) -> int
    decreases p,
{
    if p <= 0 {
        1
    } else if s[p - 1] == '\n' {
        1
    } else {
        col_at(s, p - 1) + 1
    }
}

pub open spec fn span_at(s: Seq<char>, p: int) -> Span {
    Span { line: line_at(s, p) as usize, column: col_at(s, p) as usize }
}

/// The first position at or after `p` that does not satisfy `f`.
pub open spec fn run_end(s: Seq<char>, p: int, f: spec_fn(char) -> bool) -> int
    decreases s.len() - p,
{
    if 0 <= p < s.len() && f(s[p]) {
        run_end(s, p + 1, f)
    } else {
        p
    }
}

/// A run ends at or after where it starts, and within the text.
pub proof fn lemma_run_end(s: Seq<char>, p: int, f: spec_fn(char) -> bool)
    requires
        0 <= p <= s.len(),
    ensures
        p <= run_end(s, p, f) <= s.len(),
        forall|i: int| p <= i < run_end(s, p, f) ==> f(#[trigger] s[i]),
        run_end(s, p, f) < s.len() ==> !f(s[run_end(s, p, f)]),
    decreases s.len() - p,
{
    if 0 <= p < s.len() && f(s[p]) {
        lemma_run_end(s, p + 1, f);
    }
}

pub open spec fn space_pred() -> spec_fn(char) -> bool {
    |c: char| is_space(c)
}

pub open spec fn digit_pred() -> spec_fn(char) -> bool {
    |c: char| is_digit(c)
}

pub open spec fn word_pred() -> spec_fn(char) -> bool {
    |c: char| is_word_char(c)
}

pub open spec fn comment_pred() -> spec_fn(char) -> bool {
    |c: char| c != '\n'
}

pub open spec fn digit_value(c: char) -> int {
    (c as u32) - 48
}

/// The value of a run of decimal digits.
pub open spec fn digits_value(d: Seq<char>) -> int
    decreases d.len(),
{
    if d.len() == 0 {
        0
    } else {
        digits_value(d.drop_last()) * 10 + digit_value(d.last())
    }
}

/// The keyword spelled by a name, if it is one.
pub open spec fn keyword(w: Seq<char>) -> Option<Token> {
    if w == seq!['f', 'u', 'n', 'c', 't', 'i', 'o', 'n'] {
        Some(Token::Function)
    } else if w == seq!['r', 'e', 't', 'u', 'r', 'n'] {
        Some(Token::Return)
    } else if w == seq!['l', 'e', 't'] {
        Some(Token::Let)
    } else if w == seq!['c', 'o', 'n', 's', 't'] {
        Some(Token::Const)
    } else if w == seq!['i', 'f'] {
        Some(Token::If)
    } else if w == seq!['e', 'l', 's', 'e'] {
        Some(Token::Else)
    } else if w == seq!['w', 'h', 'i', 'l', 'e'] {
        Some(Token::While)
    } else {
        None
    }
}

/// A token with an identifier's text given as characters.
pub enum Lexeme {
    Tok(Token),
    Word(Seq<char>),
}

pub open spec fn lexeme_of(t: Token) -> Lexeme {
    match t {
        Token::Identifier(s) => Lexeme::Word(s@),
        _ => Lexeme::Tok(t),
    }
}

/// The token for an operator character that may be followed by `=`.
pub open spec fn operator(c: char, eq_follows: bool) -> Token {
    if c == '=' {
        if eq_follows { Token::EqEq } else { Token::Eq }
    } else if c == '!' {
        if eq_follows { Token::BangEq } else { Token::Bang }
    } else if c == '<' {
        if eq_follows { Token::LtEq } else { Token::Lt }
    } else {
        if eq_follows { Token::GtEq } else { Token::Gt }
    }
}

/// The token of a character that is a token by itself.
pub open spec fn single(c: char) -> Option<Token> {
    if c == '(' {
        Some(Token::LParen)
    } else if c == ')' {
        Some(Token::RParen)
    } else if c == '{' {
        Some(Token::LBrace)
    } else if c == '}' {
        Some(Token::RBrace)
    } else if c == ',' {
        Some(Token::Comma)
    } else if c == ';' {
        Some(Token::Semi)
    } else if c == '+' {
        Some(Token::Plus)
    } else if c == '-' {
        Some(Token::Minus)
    } else if c == '*' {
        Some(Token::Star)
    } else if c == '%' {
        Some(Token::Percent)
    } else {
        None
    }
}

/// The next token of `s` from position `p`: white space and `//` comments are
/// skipped; the result is the token, where it starts, and where it ends.
pub open spec fn next_lexeme(s: Seq<char>, p: int) -> Result<(Lexeme, int, int), CompileError>
    decreases s.len() - p,
{
    let st = run_end(s, p, space_pred());
    if st < p || st >= s.len() {
        Ok((Lexeme::Tok(Token::EOF), st, st))
    } else {
        let c = s[st];
        if c == '/' {
            if st + 1 < s.len() && s[st + 1] == '/' {
                let q = run_end(s, st + 1, comment_pred());
                if st < q <= s.len() {
                    next_lexeme(s, q)
                } else {
                    Ok((Lexeme::Tok(Token::EOF), st, st))
                }
            } else {
                Ok((Lexeme::Tok(Token::Slash), st, st + 1))
            }
        } else if c == '=' || c == '!' || c == '<' || c == '>' {
            if st + 1 < s.len() && s[st + 1] == '=' {
                Ok((Lexeme::Tok(operator(c, true)), st, st + 2))
            } else {
                Ok((Lexeme::Tok(operator(c, false)), st, st + 1))
            }
        } else if single(c) is Some {
            Ok((Lexeme::Tok(single(c)->0), st, st + 1))
        } else if is_digit(c) {
            let e = run_end(s, st + 1, digit_pred());
            let v = digits_value(s.subrange(st, e));
            if v > i32::MAX {
                Err(CompileError::NumberTooLarge { span: span_at(s, st) })
            } else {
                Ok((Lexeme::Tok(Token::Number(v as i32)), st, e))
            }
        } else if is_word_start(c) {
            let e = run_end(s, st + 1, word_pred());
            let w = s.subrange(st, e);
            match keyword(w) {
                Some(k) => Ok((Lexeme::Tok(k), st, e)),
                None => Ok((Lexeme::Word(w), st, e)),
            }
        } else {
            Err(CompileError::UnexpectedChar { ch: c, span: span_at(s, st) })
        }
    }
}

fn is_whitespace(c: char) -> (r: bool)
    ensures
        r == is_space(c),
{
    c == '\t' || c == '\n' || c == '\u{0B}' || c == '\u{0C}' || c == '\r' || c == ' ' || c == '\u{85}'
        || c == '\u{A0}' || c == '\u{1680}' || ('\u{2000}' <= c && c <= '\u{200A}') || c == '\u{2028}'
        || c == '\u{2029}' || c == '\u{202F}' || c == '\u{205F}' || c == '\u{3000}'
}

fn is_ascii_digit(c: char) -> (r: bool)
    ensures
        r == is_digit(c),
{
    let v = c as u32;
    48 <= v && v <= 57
}

fn starts_word(c: char) -> (r: bool)
    ensures
        r == is_word_start(c),
{
    ('a' <= c && c <= 'z') || ('A' <= c && c <= 'Z') || c == '_'
}

fn continues_word(c: char) -> (r: bool)
    ensures
        r == is_word_char(c),
{
    starts_word(c) || is_ascii_digit(c)
}

fn single_token(c: char) -> (r: Option<Token>)
    ensures
        r == single(c),
{
    if c == '(' {
        Some(Token::LParen)
    } else if c == ')' {
        Some(Token::RParen)
    } else if c == '{' {
        Some(Token::LBrace)
    } else if c == '}' {
        Some(Token::RBrace)
    } else if c == ',' {
        Some(Token::Comma)
    } else if c == ';' {
        Some(Token::Semi)
    } else if c == '+' {
        Some(Token::Plus)
    } else if c == '-' {
        Some(Token::Minus)
    } else if c == '*' {
        Some(Token::Star)
    } else if c == '%' {
        Some(Token::Percent)
    } else {
        None
    }
}

fn spells(w: &Vec<char>, k: &str) -> (r: bool)
    ensures
        r == (w@ == k@),
{
    let kc = chars_of(k);
    if w.len() != kc.len() {
        return false;
    }
    let mut i: usize = 0;
    while i < w.len()
        invariant
            i <= w@.len(),
            w@.len() == kc@.len(),
            kc@ == k@,
            forall|j: int| 0 <= j < i ==> w@[j] == kc@[j],
        decreases w@.len() - i,
    {
        if w[i] != kc[i] {
            return false;
        }
        i = i + 1;
    }
    assert(w@ =~= kc@);
    true
}

fn keyword_of(w: &Vec<char>) -> (r: Option<Token>)
    ensures
        r == keyword(w@),
{
    proof {
        reveal_strlit("function");
        reveal_strlit("return");
        reveal_strlit("let");
        reveal_strlit("const");
        reveal_strlit("if");
        reveal_strlit("else");
        reveal_strlit("while");
        assert("function"@ =~= seq!['f', 'u', 'n', 'c', 't', 'i', 'o', 'n']);
        assert("return"@ =~= seq!['r', 'e', 't', 'u', 'r', 'n']);
        assert("let"@ =~= seq!['l', 'e', 't']);
        assert("const"@ =~= seq!['c', 'o', 'n', 's', 't']);
        assert("if"@ =~= seq!['i', 'f']);
        assert("else"@ =~= seq!['e', 'l', 's', 'e']);
        assert("while"@ =~= seq!['w', 'h', 'i', 'l', 'e']);
    }
    if spells(w, "function") {
        Some(Token::Function)
    } else if spells(w, "return") {
        Some(Token::Return)
    } else if spells(w, "let") {
        Some(Token::Let)
    } else if spells(w, "const") {
        Some(Token::Const)
    } else if spells(w, "if") {
        Some(Token::If)
    } else if spells(w, "else") {
        Some(Token::Else)
    } else if spells(w, "while") {
        Some(Token::While)
    } else {
        None
    }
}

/// A token starts at or after the read position and ends within the text; only
/// the end-of-input token may be empty.
pub proof fn lemma_next_lexeme_progress(s: Seq<char>, p: int)
    requires
        0 <= p <= s.len(),
    ensures
        next_lexeme(s, p) matches Ok((lx, st, e)) ==> p <= st <= e <= s.len() && (lx != Lexeme::Tok(
            Token::EOF,
        ) ==> st < e),
    decreases s.len() - p,
{
    lemma_run_end(s, p, space_pred());
    let st = run_end(s, p, space_pred());
    if st < s.len() {
        if s[st] == '/' && st + 1 < s.len() && s[st + 1] == '/' {
            lemma_run_end(s, st + 1, comment_pred());
            let q = run_end(s, st + 1, comment_pred());
            if st < q <= s.len() {
                lemma_next_lexeme_progress(s, q);
            }
        } else {
            lemma_run_end(s, st + 1, digit_pred());
            lemma_run_end(s, st + 1, word_pred());
        }
    }
}

/// Turns source text into tokens, one at a time.
pub struct Lexer {
    input: Vec<char>,
    pos: usize,
    line: usize,
    column: usize,
}

impl Lexer {
    /// The source text.
    pub closed spec fn chars(&self) -> Seq<char> {
        self.input@
    }

    /// How far the lexer has read.
    pub closed spec fn position(&self) -> int {
        self.pos as int
    }

    pub closed spec fn wf(&self) -> bool {
        &&& self.input@.len() < usize::MAX
        &&& self.pos <= self.input@.len()
        &&& self.line == line_at(self.input@, self.pos as int)
        &&& self.column == col_at(self.input@, self.pos as int)
        &&& self.line <= self.pos + 1
        &&& self.column <= self.pos + 1
    }

    pub proof fn lemma_position(&self)
        requires
            self.wf(),
        ensures
            0 <= self.position() <= self.chars().len(),
    {
    }

    pub fn new(input: &str) -> (r: Lexer)
        requires
            input@.len() < usize::MAX,
        ensures
            r.wf(),
            r.chars() == input@,
            r.position() == 0,
    {
        Lexer { input: chars_of(input), pos: 0, line: 1, column: 1 }
    }

    /// The character at the read position, if any is left.
    pub fn peek(&self) -> (r: Option<char>)
        requires
            self.wf(),
        ensures
            r == if self.position() < self.chars().len() {
                Some(self.chars()[self.position()])
            } else {
                None::<char>
            },
    {
        if self.pos >= self.input.len() {
            None
        } else {
            Some(self.input[self.pos])
        }
    }

    fn advance(&mut self) -> (r: Option<char>)
        requires
            old(self).wf(),
        ensures
            final(self).wf(),
            final(self).chars() == old(self).chars(),
            r == if old(self).position() < old(self).chars().len() {
                Some(old(self).chars()[old(self).position()])
            } else {
                None::<char>
            },
            final(self).position() == if r is Some {
                old(self).position() + 1
            } else {
                old(self).position()
            },
    {
        let c = self.peek();
        match c {
            Some(ch) => {
                self.pos = self.pos + 1;
                if ch == '\n' {
                    self.line = self.line + 1;
                    self.column = 1;
                } else {
                    self.column = self.column + 1;
                }
            },
            None => {},
        }
        c
    }

    fn skip_whitespace(&mut self)
        requires
            old(self).wf(),
        ensures
            final(self).wf(),
            final(self).chars() == old(self).chars(),
            final(self).position() == run_end(old(self).chars(), old(self).position(), space_pred()),
    {
        proof {
            lemma_run_end(self.input@, self.pos as int, space_pred());
        }
        loop
            invariant
                self.wf(),
                self.chars() == old(self).chars(),
                run_end(self.input@, self.pos as int, space_pred()) == run_end(
                    old(self).chars(),
                    old(self).position(),
                    space_pred(),
                ),
            ensures
                run_end(self.input@, self.pos as int, space_pred()) == self.pos,
            decreases self.input@.len() - self.pos,
        {
            match self.peek() {
                Some(c) => {
                    if is_whitespace(c) {
                        self.advance();
                    } else {
                        assert(run_end(self.input@, self.pos as int, space_pred()) == self.pos);
                        break;
                    }
                },
                None => {
                    assert(run_end(self.input@, self.pos as int, space_pred()) == self.pos);
                    break;
                },
            }
        }
    }

    fn skip_comment(&mut self)
        requires
            old(self).wf(),
        ensures
            final(self).wf(),
            final(self).chars() == old(self).chars(),
            final(self).position() == run_end(old(self).chars(), old(self).position(), comment_pred()),
    {
        loop
            invariant
                self.wf(),
                self.chars() == old(self).chars(),
                run_end(self.input@, self.pos as int, comment_pred()) == run_end(
                    old(self).chars(),
                    old(self).position(),
                    comment_pred(),
                ),
            ensures
                run_end(self.input@, self.pos as int, comment_pred()) == self.pos,
            decreases self.input@.len() - self.pos,
        {
            match self.peek() {
                Some(c) => {
                    if c == '\n' {
                        assert(run_end(self.input@, self.pos as int, comment_pred()) == self.pos);
                        break;
                    }
                    self.advance();
                },
                None => {
                    assert(run_end(self.input@, self.pos as int, comment_pred()) == self.pos);
                    break;
                },
            }
        }
    }

    /// Consumes the next character if it is `expected`.
    fn match_char(&mut self, expected: char) -> (r: bool)
        requires
            old(self).wf(),
        ensures
            final(self).wf(),
            final(self).chars() == old(self).chars(),
            r == (old(self).position() < old(self).chars().len()
                && old(self).chars()[old(self).position()] == expected),
            final(self).position() == old(self).position() + if r { 1int } else { 0int },
    {
        match self.peek() {
            Some(c) => {
                if c == expected {
                    self.advance();
                    return true;
                }
            },
            None => {},
        }
        false
    }

    /// Reads the rest of a number whose first digit was just consumed; `None`
    /// when its value does not fit in an `i32`.
    fn read_number(&mut self, first: char) -> (r: Option<i32>)
        requires
            old(self).wf(),
            old(self).position() >= 1,
            old(self).chars()[old(self).position() - 1] == first,
            is_digit(first),
        ensures
            final(self).wf(),
            final(self).chars() == old(self).chars(),
            final(self).position() == run_end(old(self).chars(), old(self).position(), digit_pred()),
            ({
                let v = digits_value(
                    old(self).chars().subrange(old(self).position() - 1, final(self).position()),
                );
                r == if v > i32::MAX { None::<i32> } else { Some(v as i32) }
            }),
    {
        let ghost s = self.input@;
        let ghost start = self.pos - 1;
        let mut acc: u64 = (first as u32 - 48) as u64;
        assert(s.subrange(start, self.pos as int).drop_last() =~= seq![]);
        assert(s.subrange(start, self.pos as int).last() == first);
        assert(digits_value(seq![]) == 0);
        loop
            invariant
                self.wf(),
                self.input@ == s,
                0 <= start < self.pos,
                run_end(s, self.pos as int, digit_pred()) == run_end(s, old(self).position(), digit_pred()),
                digits_value(s.subrange(start, self.pos as int)) >= 0,
                digits_value(s.subrange(start, self.pos as int)) > i32::MAX ==> acc == i32::MAX + 1,
                digits_value(s.subrange(start, self.pos as int)) <= i32::MAX ==> acc == digits_value(
                    s.subrange(start, self.pos as int),
                ),
            ensures
                run_end(s, self.pos as int, digit_pred()) == self.pos,
            decreases s.len() - self.pos,
        {
            match self.peek() {
                Some(c) => {
                    if !is_ascii_digit(c) {
                        assert(run_end(s, self.pos as int, digit_pred()) == self.pos);
                        break;
                    }
                    self.advance();
                    assert(s.subrange(start, self.pos as int).drop_last() =~= s.subrange(start, self.pos - 1));
                    assert(s.subrange(start, self.pos as int).last() == c);
                    let d = (c as u32 - 48) as u64;
                    if acc <= 2147483647 {
                        let t = acc * 10 + d;
                        acc = if t > 2147483647 {
                            2147483648
                        } else {
                            t
                        };
                    }
                },
                None => break,
            }
        }
        if acc > 2147483647 {
            None
        } else {
            Some(acc as i32)
        }
    }

    /// Reads the rest of a name whose first character was just consumed: a
    /// keyword token or an identifier.
    fn read_identifier(&mut self, first: char) -> (r: Token)
        requires
            old(self).wf(),
            old(self).position() >= 1,
            old(self).chars()[old(self).position() - 1] == first,
        ensures
            final(self).wf(),
            final(self).chars() == old(self).chars(),
            final(self).position() == run_end(old(self).chars(), old(self).position(), word_pred()),
            ({
                let w = old(self).chars().subrange(old(self).position() - 1, final(self).position());
                lexeme_of(r) == match keyword(w) {
                    Some(k) => Lexeme::Tok(k),
                    None => Lexeme::Word(w),
                }
            }),
    {
        let ghost s = self.input@;
        let ghost start = self.pos - 1;
        let mut w: Vec<char> = vec![first];
        assert(w@ =~= s.subrange(start, self.pos as int));
        loop
            invariant
                self.wf(),
                self.input@ == s,
                0 <= start < self.pos,
                w@ == s.subrange(start, self.pos as int),
                run_end(s, self.pos as int, word_pred()) == run_end(s, old(self).position(), word_pred()),
            ensures
                run_end(s, self.pos as int, word_pred()) == self.pos,
            decreases s.len() - self.pos,
        {
            match self.peek() {
                Some(c) => {
                    if !continues_word(c) {
                        assert(run_end(s, self.pos as int, word_pred()) == self.pos);
                        break;
                    }
                    self.advance();
                    w.push(c);
                    assert(w@ =~= s.subrange(start, self.pos as int));
                },
                None => break,
            }
        }
        match keyword_of(&w) {
            Some(k) => k,
            None => Token::Identifier(string_of(&w)),
        }
    }

    /// The next token and the position of its first character. White space and
    /// `//` comments are skipped; at the end of the text it is `EOF`, again and
    /// again.
    pub fn next_token(&mut self) -> (r: Result<SpannedToken, CompileError>)
        requires
            old(self).wf(),
        ensures
            final(self).wf(),
            final(self).chars() == old(self).chars(),
            match next_lexeme(old(self).chars(), old(self).position()) {
                Ok((lx, st, e)) => r matches Ok(t) && lexeme_of(t.token) == lx && t.span == span_at(
                    old(self).chars(),
                    st,
                ) && final(self).position() == e,
                Err(err) => r == Err::<SpannedToken, CompileError>(err),
            },
        decreases old(self).chars().len() - old(self).position(),
    {
        let ghost s = self.input@;
        self.skip_whitespace();
        proof {
            lemma_run_end(s, old(self).position(), space_pred());
        }
        let ghost st = self.pos as int;
        let span = Span::new(self.line, self.column);
        let c = match self.advance() {
            Some(c) => c,
            None => {
                return Ok(SpannedToken { token: Token::EOF, span });
            },
        };
        let token = if c == '/' {
            if self.match_char('/') {
                self.skip_comment();
                proof {
                    lemma_run_end(s, st + 1, comment_pred());
                }
                return self.next_token();
            }
            Token::Slash
        } else if c == '=' || c == '!' || c == '<' || c == '>' {
            let eq = self.match_char('=');
            if c == '=' {
                if eq { Token::EqEq } else { Token::Eq }
            } else if c == '!' {
                if eq { Token::BangEq } else { Token::Bang }
            } else if c == '<' {
                if eq { Token::LtEq } else { Token::Lt }
            } else {
                if eq { Token::GtEq } else { Token::Gt }
            }
        } else {
            match single_token(c) {
                Some(t) => t,
                None => {
                    if is_ascii_digit(c) {
                        proof {
                            lemma_run_end(s, st + 1, digit_pred());
                        }
                        match self.read_number(c) {
                            Some(n) => Token::Number(n),
                            None => {
                                return Err(CompileError::NumberTooLarge { span });
                            },
                        }
                    } else if starts_word(c) {
                        proof {
                            lemma_run_end(s, st + 1, word_pred());
                        }
                        self.read_identifier(c)
                    } else {
                        return Err(CompileError::UnexpectedChar { ch: c, span });
                    }
                },
            }
        };
        Ok(SpannedToken { token, span })
    }
}

} // verus!
