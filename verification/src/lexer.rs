use vstd::prelude::*;

use crate::prelude::Span;
use crate::text::{chars_of, string_from_chars};
use crate::token::{spec_infers_semicolon, Token, TokenKind, TokenV};

verus! {

// ---------------------------------------------------------------------------
// The model of lexing, over the characters of the source.
// ---------------------------------------------------------------------------

/// Number of bytes that `c` takes in UTF-8.
pub open spec fn char_len(c: char) -> nat {
    if (c as u32) < 0x80 {
        1
    } else if (c as u32) < 0x800 {
        2
    } else if (c as u32) < 0x10000 {
        3
    } else {
        4
    }
}

/// Number of bytes that `s` takes in UTF-8.
pub open spec fn byte_len(s: Seq<char>) -> nat
    decreases s.len(),
{
    if s.len() == 0 {
        0
    } else {
        byte_len(s.drop_last()) + char_len(s.last())
    }
}

/// Byte offset of the character at index `i`.
pub open spec fn bpos(src: Seq<char>, i: int) -> nat {
    byte_len(src.take(i))
}

pub open spec fn is_alpha(c: char) -> bool {
    ('a' <= c && c <= 'z') || ('A' <= c && c <= 'Z')
}

pub open spec fn is_digit(c: char) -> bool {
    '0' <= c && c <= '9'
}

/// The characters that may continue an identifier.
pub open spec fn is_ident_char(c: char) -> bool {
    is_alpha(c) || is_digit(c) || c == '_'
}

/// The characters that may continue a number.
pub open spec fn is_number_char(c: char) -> bool {
    is_digit(c) || c == '_'
}

/// Classes of characters that the lexer skips over in one go.
pub enum CharClass {
    Ident,
    Number,
    NotNewline,
}

pub open spec fn in_class(c: char, cls: CharClass) -> bool {
    match cls {
        CharClass::Ident => is_ident_char(c),
        CharClass::Number => is_number_char(c),
        CharClass::NotNewline => c != '\n',
    }
}

/// The first index at or after `j` that holds no character of class `cls`.
pub open spec fn skip_while(src: Seq<char>, j: int, cls: CharClass) -> int
    decreases src.len() - j,
{
    if j < 0 || j >= src.len() || !in_class(src[j], cls) {
        j
    } else {
        skip_while(src, j + 1, cls)
    }
}

/// The keyword spelled by `s`, if any.
pub open spec fn spec_keyword(s: Seq<char>) -> Option<TokenKind> {
    if s == seq!['p', 'a', 'r'] {
        Some(TokenKind::Par)
    } else if s == seq!['k', 'u', 'n', 'g'] {
        Some(TokenKind::Kung)
    } else if s == seq!['k', 'u', 'n', 'g', 'd', 'i'] {
        Some(TokenKind::Kungdi)
    } else if s == seq!['k', 'u', 'n', 'g', 'w', 'a', 'l', 'a'] {
        Some(TokenKind::Kungwala)
    } else if s == seq!['i', 'b', 'a', 'l', 'i', 'k'] {
        Some(TokenKind::Ibalik)
    } else {
        None
    }
}

/// The token of kind `kind` made of the characters `src[a..b]`.
pub open spec fn mk_token(src: Seq<char>, a: int, b: int, kind: TokenKind) -> TokenV {
    TokenV {
        lexeme: src.subrange(a, b),
        kind,
        span: Span { start: bpos(src, a) as usize, end: bpos(src, b) as usize },
    }
}

/// The kind of a one-character token.
pub open spec fn single_kind(c: char) -> Option<TokenKind> {
    if c == '{' {
        Some(TokenKind::LBrace)
    } else if c == '}' {
        Some(TokenKind::RBrace)
    } else if c == ':' {
        Some(TokenKind::Colon)
    } else if c == ';' {
        Some(TokenKind::Semicolon)
    } else if c == '+' {
        Some(TokenKind::Plus)
    } else if c == '*' {
        Some(TokenKind::Star)
    } else if c == '/' {
        Some(TokenKind::Slash)
    } else {
        None
    }
}

/// For `<`, `>` and `=`: the kind alone and the kind when followed by `=`.
pub open spec fn compare_kinds(c: char) -> Option<(TokenKind, TokenKind)> {
    if c == '<' {
        Some((TokenKind::Lesser, TokenKind::LesserEq))
    } else if c == '>' {
        Some((TokenKind::Greater, TokenKind::GreaterEq))
    } else if c == '=' {
        Some((TokenKind::Equal, TokenKind::EqualEq))
    } else {
        None
    }
}

/// The inferred `;` that a line break at `i` stands for.
pub open spec fn inferred_semicolon(src: Seq<char>, i: int) -> TokenV {
    TokenV {
        lexeme: seq![';'],
        kind: TokenKind::Semicolon,
        span: Span { start: bpos(src, i) as usize, end: bpos(src, i + 1) as usize },
    }
}

/// Lexes one token (or skips a blank, a line break or a comment) starting at
/// character `i`, with `depth` open brackets and the tokens `toks` so far.
/// `None` where lexing cannot go on: an unknown character, a closing bracket
/// with none open, or more than 255 open brackets.
pub open spec fn lex_step(src: Seq<char>, i: int, depth: int, toks: Seq<TokenV>) -> Option<
    (int, int, Seq<TokenV>),
> {
    let c = src[i];
    if c == '(' || c == '[' {
        if depth >= 255 {
            None
        } else {
            let k = if c == '(' { TokenKind::LParen } else { TokenKind::LSquare };
            Some((i + 1, depth + 1, toks.push(mk_token(src, i, i + 1, k))))
        }
    } else if c == ')' || c == ']' {
        if depth <= 0 {
            None
        } else {
            let k = if c == ')' { TokenKind::RParen } else { TokenKind::RSquare };
            Some((i + 1, depth - 1, toks.push(mk_token(src, i, i + 1, k))))
        }
    } else if single_kind(c) is Some {
        Some((i + 1, depth, toks.push(mk_token(src, i, i + 1, single_kind(c).unwrap()))))
    } else if compare_kinds(c) is Some {
        let (alone, with_eq) = compare_kinds(c).unwrap();
        if i + 1 < src.len() && src[i + 1] == '=' {
            Some((i + 2, depth, toks.push(mk_token(src, i, i + 2, with_eq))))
        } else {
            Some((i + 1, depth, toks.push(mk_token(src, i, i + 1, alone))))
        }
    } else if c == '-' {
        if i + 1 < src.len() && src[i + 1] == '-' {
            Some((skip_while(src, i + 2, CharClass::NotNewline), depth, toks))
        } else {
            Some((i + 1, depth, toks.push(mk_token(src, i, i + 1, TokenKind::Minus))))
        }
    } else if c == '\n' {
        if depth == 0 && toks.len() > 0 && spec_infers_semicolon(toks.last().kind) {
            Some((i + 1, depth, toks.push(inferred_semicolon(src, i))))
        } else {
            Some((i + 1, depth, toks))
        }
    } else if c == ' ' || c == '\t' || c == '\r' {
        Some((i + 1, depth, toks))
    } else if is_alpha(c) || c == '_' {
        let j = skip_while(src, i + 1, CharClass::Ident);
        let kind = match spec_keyword(src.subrange(i, j)) {
            Some(k) => k,
            None => TokenKind::Identifier,
        };
        Some((j, depth, toks.push(mk_token(src, i, j, kind))))
    } else if is_digit(c) {
        let j = skip_while(src, i + 1, CharClass::Number);
        if j + 1 < src.len() && src[j] == '.' && is_digit(src[j + 1]) {
            let k = skip_while(src, j + 1, CharClass::Number);
            Some((k, depth, toks.push(mk_token(src, i, k, TokenKind::FloatLiteral))))
        } else {
            Some((j, depth, toks.push(mk_token(src, i, j, TokenKind::IntLiteral))))
        }
    } else {
        None
    }
}

/// Lexes the rest of `src` from character `i`; `None` where lexing cannot go on.
pub open spec fn lex_loop(src: Seq<char>, i: int, depth: int, toks: Seq<TokenV>) -> Option<
    Seq<TokenV>,
>
    decreases src.len() - i,
{
    if i < 0 || i >= src.len() {
        Some(toks)
    } else {
        match lex_step(src, i, depth, toks) {
            None => None,
            Some((i2, d2, t2)) => if i < i2 <= src.len() {
                lex_loop(src, i2, d2, t2)
            } else {
                None
            },
        }
    }
}

/// The tokens of a whole source; `None` where the lexer cannot finish it.
pub open spec fn lex_spec(src: Seq<char>) -> Option<Seq<TokenV>> {
    lex_loop(src, 0, 0, Seq::empty())
}

/// A source that the lexer can work through: its byte length fits in a
/// `usize` and every character is lexed.
pub open spec fn lexable(src: Seq<char>) -> bool {
    byte_len(src) <= usize::MAX && lex_spec(src) is Some
}

pub open spec fn tokens_view(ts: Seq<Token>) -> Seq<TokenV> {
    ts.map_values(|t: Token| t@)
}

// ---------------------------------------------------------------------------
// Facts about the model.
// ---------------------------------------------------------------------------

proof fn lemma_bpos_step(src: Seq<char>, i: int)
    requires
        0 <= i < src.len(),
    ensures
        bpos(src, i + 1) == bpos(src, i) + char_len(src[i]),
{
    assert(src.take(i + 1).drop_last() =~= src.take(i));
}

proof fn lemma_bpos_mono(src: Seq<char>, i: int, j: int)
    requires
        0 <= i <= j <= src.len(),
    ensures
        bpos(src, i) <= bpos(src, j),
    decreases j - i,
{
    if i < j {
        lemma_bpos_mono(src, i, j - 1);
        lemma_bpos_step(src, j - 1);
    }
}

proof fn lemma_skip_while_bounds(src: Seq<char>, j: int, cls: CharClass)
    requires
        0 <= j <= src.len(),
    ensures
        j <= skip_while(src, j, cls) <= src.len(),
    decreases src.len() - j,
{
    if j < src.len() && in_class(src[j], cls) {
        lemma_skip_while_bounds(src, j + 1, cls);
    }
}

/// Every step of the lexer moves forward, so the guard in `lex_loop` never cuts it short.
pub proof fn lemma_lex_step_advances(src: Seq<char>, i: int, depth: int, toks: Seq<TokenV>)
    requires
        0 <= i < src.len(),
        lex_step(src, i, depth, toks) is Some,
    ensures
        i < lex_step(src, i, depth, toks).unwrap().0 <= src.len(),
{
    let c = src[i];
    if c == '-' && i + 1 < src.len() && src[i + 1] == '-' {
        lemma_skip_while_bounds(src, i + 2, CharClass::NotNewline);
    } else if is_alpha(c) || c == '_' {
        lemma_skip_while_bounds(src, i + 1, CharClass::Ident);
    } else if is_digit(c) {
        lemma_skip_while_bounds(src, i + 1, CharClass::Number);
        let j = skip_while(src, i + 1, CharClass::Number);
        if j + 1 < src.len() && src[j] == '.' && is_digit(src[j + 1]) {
            lemma_skip_while_bounds(src, j + 1, CharClass::Number);
        }
    }
}

// ---------------------------------------------------------------------------
// The lexer.
// ---------------------------------------------------------------------------

/// Turns source code into tokens.
pub struct Lexer<'src> {
    source: &'src str,
    chars: Vec<char>,
    idx: usize,
    start_idx: usize,
    start: usize,
    current: usize,
    bracket_depth: u8,
    tokens: Vec<Token>,
}

impl<'src> Lexer<'src> {
    /// The characters of the source.
    pub closed spec fn src(&self) -> Seq<char> {
        self.source@
    }

    /// Index of the next character to read.
    pub closed spec fn pos(&self) -> int {
        self.idx as int
    }

    /// Number of brackets open at this point.
    pub closed spec fn depth(&self) -> int {
        self.bracket_depth as int
    }

    /// The tokens lexed so far.
    pub closed spec fn toks(&self) -> Seq<TokenV> {
        tokens_view(self.tokens@)
    }

    closed spec fn token_start(&self) -> int {
        self.start_idx as int
    }

    /// The internal bookkeeping agrees with the characters read so far.
    pub closed spec fn wf(&self) -> bool {
        &&& self.chars@ == self.source@
        &&& byte_len(self.source@) <= usize::MAX
        &&& self.start_idx <= self.idx <= self.chars@.len()
        &&& self.current == bpos(self.source@, self.idx as int)
        &&& self.start == bpos(self.source@, self.start_idx as int)
    }

    pub fn new(source: &'src str) -> (l: Self)
        requires
            byte_len(source@) <= usize::MAX,
        ensures
            l.wf(),
            l.src() == source@,
            l.pos() == 0,
            l.depth() == 0,
            l.toks() == Seq::<TokenV>::empty(),
    {
        let chars = chars_of(source);
        let l = Self {
            source,
            chars,
            idx: 0,
            start_idx: 0,
            start: 0,
            current: 0,
            tokens: Vec::new(),
            bracket_depth: 0,
        };
        proof {
            assert(source@.take(0) =~= Seq::<char>::empty());
            assert(tokens_view(l.tokens@) =~= Seq::empty());
        }
        l
    }

    /// Lexes the rest of the source and hands over all tokens lexed, leaving
    /// none behind.
    pub fn run(&mut self) -> (ts: Vec<Token>)
        requires
            old(self).wf(),
            lex_loop(old(self).src(), old(self).pos(), old(self).depth(), old(self).toks()) is Some,
        ensures
            final(self).wf(),
            final(self).src() == old(self).src(),
            final(self).pos() == old(self).src().len(),
            final(self).toks() == Seq::<TokenV>::empty(),
            tokens_view(ts@) == lex_loop(
                old(self).src(),
                old(self).pos(),
                old(self).depth(),
                old(self).toks(),
            ).unwrap(),
    {
        let ghost result = lex_loop(self.src(), self.pos(), self.depth(), self.toks());
        while self.peek().is_some()
            invariant
                self.wf(),
                self.src() == old(self).src(),
                lex_loop(self.src(), self.pos(), self.depth(), self.toks()) == result,
                result is Some,
            decreases self.src().len() - self.pos(),
        {
            self.start = self.current;
            self.start_idx = self.idx;
            proof {
                lemma_lex_step_advances(self.src(), self.pos(), self.depth(), self.toks());
            }
            self.lex_token();
        }
        let mut taken: Vec<Token> = Vec::new();
        std::mem::swap(&mut self.tokens, &mut taken);
        proof {
            assert(tokens_view(self.tokens@) =~= Seq::empty());
        }
        taken
    }

    fn lex_token(&mut self)
        requires
            old(self).wf(),
            old(self).token_start() == old(self).pos(),
            old(self).pos() < old(self).src().len(),
            lex_step(old(self).src(), old(self).pos(), old(self).depth(), old(self).toks()) is Some,
        ensures
            final(self).wf(),
            final(self).src() == old(self).src(),
            lex_step(old(self).src(), old(self).pos(), old(self).depth(), old(self).toks())
                == Some((final(self).pos(), final(self).depth(), final(self).toks())),
    {
        let ch = match self.advance() {
            Some(c) => c,
            None => unreached(),
        };
        if ch == '(' || ch == '[' {
            self.bracket_depth = self.bracket_depth + 1;
            if ch == '(' {
                self.add_token(TokenKind::LParen, None);
            } else {
                self.add_token(TokenKind::LSquare, None);
            }
        } else if ch == ')' || ch == ']' {
            self.bracket_depth = self.bracket_depth - 1;
            if ch == ')' {
                self.add_token(TokenKind::RParen, None);
            } else {
                self.add_token(TokenKind::RSquare, None);
            }
        } else if ch == '{' {
            self.add_token(TokenKind::LBrace, None);
        } else if ch == '}' {
            self.add_token(TokenKind::RBrace, None);
        } else if ch == ':' {
            self.add_token(TokenKind::Colon, None);
        } else if ch == ';' {
            self.add_token(TokenKind::Semicolon, None);
        } else if ch == '<' {
            if self.match_ch('=') {
                self.add_token(TokenKind::LesserEq, None);
            } else {
                self.add_token(TokenKind::Lesser, None);
            }
        } else if ch == '>' {
            if self.match_ch('=') {
                self.add_token(TokenKind::GreaterEq, None);
            } else {
                self.add_token(TokenKind::Greater, None);
            }
        } else if ch == '=' {
            if self.match_ch('=') {
                self.add_token(TokenKind::EqualEq, None);
            } else {
                self.add_token(TokenKind::Equal, None);
            }
        } else if ch == '+' {
            self.add_token(TokenKind::Plus, None);
        } else if ch == '-' {
            if self.match_ch('-') {
                self.skip_comment();
            } else {
                self.add_token(TokenKind::Minus, None);
            }
        } else if ch == '*' {
            self.add_token(TokenKind::Star, None);
        } else if ch == '/' {
            self.add_token(TokenKind::Slash, None);
        } else if ch == '\n' {
            if self.bracket_depth == 0 {
                self.emit_inferred_semicolon();
            }
        } else if ch == ' ' || ch == '\t' || ch == '\r' {
        } else if is_ascii_alpha(ch) || ch == '_' {
            self.lex_identifier();
        } else if is_ascii_digit(ch) {
            self.lex_number();
        } else {
            unreached()
        }
    }

    /// Skips the rest of a comment, up to (not including) the line break.
    fn skip_comment(&mut self)
        requires
            old(self).wf(),
        ensures
            final(self).wf(),
            final(self).src() == old(self).src(),
            final(self).pos() == skip_while(old(self).src(), old(self).pos(), CharClass::NotNewline),
            final(self).token_start() == old(self).token_start(),
            final(self).depth() == old(self).depth(),
            final(self).toks() == old(self).toks(),
    {
        loop
            invariant
                self.wf(),
                self.src() == old(self).src(),
                skip_while(self.src(), self.pos(), CharClass::NotNewline) == skip_while(
                    old(self).src(),
                    old(self).pos(),
                    CharClass::NotNewline,
                ),
                self.token_start() == old(self).token_start(),
                self.depth() == old(self).depth(),
                self.toks() == old(self).toks(),
            ensures
                self.pos() == skip_while(old(self).src(), old(self).pos(), CharClass::NotNewline),
            decreases self.src().len() - self.pos(),
        {
            match self.peek() {
                Some(c) => {
                    if c == '\n' {
                        break ;
                    }
                },
                None => {
                    break ;
                },
            }
            self.advance();
        }
    }

    fn lex_identifier(&mut self)
        requires
            old(self).wf(),
            old(self).token_start() < old(self).pos(),
        ensures
            final(self).wf(),
            final(self).src() == old(self).src(),
            final(self).pos() == skip_while(old(self).src(), old(self).pos(), CharClass::Ident),
            final(self).depth() == old(self).depth(),
            final(self).toks() == old(self).toks().push(
                mk_token(
                    old(self).src(),
                    old(self).token_start(),
                    final(self).pos(),
                    match spec_keyword(
                        old(self).src().subrange(old(self).token_start(), final(self).pos()),
                    ) {
                        Some(k) => k,
                        None => TokenKind::Identifier,
                    },
                ),
            ),
    {
        self.skip_class(CharClass::Ident);
        let kind = match keyword_kind(&self.chars, self.start_idx, self.idx) {
            Some(k) => k,
            None => TokenKind::Identifier,
        };
        self.add_token(kind, None);
    }

    fn lex_number(&mut self)
        requires
            old(self).wf(),
            old(self).token_start() < old(self).pos(),
        ensures
            final(self).wf(),
            final(self).src() == old(self).src(),
            final(self).depth() == old(self).depth(),
            ({
                let src = old(self).src();
                let i = old(self).token_start();
                let j = skip_while(src, old(self).pos(), CharClass::Number);
                if j + 1 < src.len() && src[j] == '.' && is_digit(src[j + 1]) {
                    let k = skip_while(src, j + 1, CharClass::Number);
                    final(self).pos() == k && final(self).toks() == old(self).toks().push(
                        mk_token(src, i, k, TokenKind::FloatLiteral),
                    )
                } else {
                    final(self).pos() == j && final(self).toks() == old(self).toks().push(
                        mk_token(src, i, j, TokenKind::IntLiteral),
                    )
                }
            }),
    {
        self.skip_class(CharClass::Number);
        let is_float = match (self.peek(), self.peek_next()) {
            (Some(c1), Some(c2)) => c1 == '.' && is_ascii_digit(c2),
            _ => false,
        };
        let kind = if is_float {
            self.advance();
            self.skip_class(CharClass::Number);
            TokenKind::FloatLiteral
        } else {
            TokenKind::IntLiteral
        };
        self.add_token(kind, None);
    }

    /// Reads on while the next character belongs to `cls`.
    fn skip_class(&mut self, cls: CharClass)
        requires
            old(self).wf(),
        ensures
            final(self).wf(),
            final(self).src() == old(self).src(),
            final(self).pos() == skip_while(old(self).src(), old(self).pos(), cls),
            final(self).token_start() == old(self).token_start(),
            final(self).depth() == old(self).depth(),
            final(self).toks() == old(self).toks(),
    {
        loop
            invariant
                self.wf(),
                self.src() == old(self).src(),
                skip_while(self.src(), self.pos(), cls) == skip_while(
                    old(self).src(),
                    old(self).pos(),
                    cls,
                ),
                self.token_start() == old(self).token_start(),
                self.depth() == old(self).depth(),
                self.toks() == old(self).toks(),
            ensures
                self.pos() == skip_while(old(self).src(), old(self).pos(), cls),
            decreases self.src().len() - self.pos(),
        {
            match self.peek() {
                Some(c) => {
                    if !char_in_class(c, &cls) {
                        break ;
                    }
                },
                None => {
                    break ;
                },
            }
            self.advance();
        }
    }

    fn emit_inferred_semicolon(&mut self)
        requires
            old(self).wf(),
            old(self).pos() == old(self).token_start() + 1,
        ensures
            final(self).wf(),
            final(self).src() == old(self).src(),
            final(self).pos() == old(self).pos(),
            final(self).depth() == old(self).depth(),
            final(self).toks() == if old(self).toks().len() > 0 && spec_infers_semicolon(
                old(self).toks().last().kind,
            ) {
                old(self).toks().push(inferred_semicolon(old(self).src(), old(self).token_start()))
            } else {
                old(self).toks()
            },
    {
        let infers = match self.tokens.last() {
            Some(tok) => tok.kind().infers_semicolon(),
            None => false,
        };
        proof {
            if self.tokens@.len() > 0 {
                assert(self.toks().last() == self.tokens@.last()@);
            }
        }
        if infers {
            proof {
                reveal_strlit(";");
                assert(";"@ =~= seq![';']);
            }
            self.add_token(TokenKind::Semicolon, Some(";"));
        }
    }

    fn add_token(&mut self, kind: TokenKind, lexeme: Option<&'src str>)
        requires
            old(self).wf(),
        ensures
            final(self).wf(),
            final(self).src() == old(self).src(),
            final(self).pos() == old(self).pos(),
            final(self).token_start() == old(self).token_start(),
            final(self).depth() == old(self).depth(),
            final(self).toks() == old(self).toks().push(
                TokenV {
                    lexeme: match lexeme {
                        Some(s) => s@,
                        None => old(self).src().subrange(old(self).token_start(), old(self).pos()),
                    },
                    kind,
                    span: Span {
                        start: bpos(old(self).src(), old(self).token_start()) as usize,
                        end: bpos(old(self).src(), old(self).pos()) as usize,
                    },
                },
            ),
    {
        let text = match lexeme {
            Some(s) => s.to_owned(),
            None => string_from_chars(&self.chars, self.start_idx, self.idx),
        };
        let tok = Token::new(text, kind, self.span());
        let ghost old_tokens = self.tokens@;
        self.tokens.push(tok);
        proof {
            assert(tokens_view(self.tokens@) =~= tokens_view(old_tokens).push(tok@));
        }
    }

    fn match_ch(&mut self, ch: char) -> (b: bool)
        requires
            old(self).wf(),
        ensures
            final(self).wf(),
            final(self).src() == old(self).src(),
            b == (old(self).pos() < old(self).src().len() && old(self).src()[old(self).pos()] == ch),
            final(self).pos() == if b { old(self).pos() + 1 } else { old(self).pos() },
            final(self).token_start() == old(self).token_start(),
            final(self).depth() == old(self).depth(),
            final(self).toks() == old(self).toks(),
    {
        match self.peek() {
            Some(ch2) => {
                if ch == ch2 {
                    self.advance();
                    true
                } else {
                    false
                }
            },
            None => false,
        }
    }

    fn span(&self) -> (s: Span)
        ensures
            s == (Span { start: self.start, end: self.current }),
    {
        self.start..self.current
    }

    fn peek(&mut self) -> (c: Option<char>)
        requires
            old(self).wf(),
        ensures
            *final(self) == *old(self),
            c == if old(self).pos() < old(self).src().len() {
                Some(old(self).src()[old(self).pos()])
            } else {
                None
            },
    {
        if self.idx < self.chars.len() {
            Some(self.chars[self.idx])
        } else {
            None
        }
    }

    fn peek_next(&mut self) -> (c: Option<char>)
        requires
            old(self).wf(),
        ensures
            *final(self) == *old(self),
            c == if old(self).pos() + 1 < old(self).src().len() {
                Some(old(self).src()[old(self).pos() + 1])
            } else {
                None
            },
    {
        if self.idx < self.chars.len() && self.idx + 1 < self.chars.len() {
            Some(self.chars[self.idx + 1])
        } else {
            None
        }
    }

    fn advance(&mut self) -> (c: Option<char>)
        requires
            old(self).wf(),
        ensures
            final(self).wf(),
            final(self).src() == old(self).src(),
            c == if old(self).pos() < old(self).src().len() {
                Some(old(self).src()[old(self).pos()])
            } else {
                None
            },
            final(self).pos() == if c is Some { old(self).pos() + 1 } else { old(self).pos() },
            final(self).token_start() == old(self).token_start(),
            final(self).depth() == old(self).depth(),
            final(self).toks() == old(self).toks(),
    {
        if self.idx < self.chars.len() {
            let ch = self.chars[self.idx];
            proof {
                lemma_bpos_step(self.source@, self.idx as int);
                lemma_bpos_mono(self.source@, self.idx + 1, self.source@.len() as int);
                assert(self.source@.take(self.source@.len() as int) =~= self.source@);
            }
            self.idx = self.idx + 1;
            self.current = self.current + utf8_len(ch);
            Some(ch)
        } else {
            None
        }
    }
}

fn utf8_len(c: char) -> (n: usize)
    ensures
        n == char_len(c),
{
    let v = c as u32;
    if v < 0x80 {
        1
    } else if v < 0x800 {
        2
    } else if v < 0x10000 {
        3
    } else {
        4
    }
}

fn is_ascii_alpha(c: char) -> (b: bool)
    ensures
        b == is_alpha(c),
{
    ('a' <= c && c <= 'z') || ('A' <= c && c <= 'Z')
}

fn is_ascii_digit(c: char) -> (b: bool)
    ensures
        b == is_digit(c),
{
    '0' <= c && c <= '9'
}

fn char_in_class(c: char, cls: &CharClass) -> (b: bool)
    ensures
        b == in_class(c, *cls),
{
    match cls {
        CharClass::Ident => is_ascii_alpha(c) || is_ascii_digit(c) || c == '_',
        CharClass::Number => is_ascii_digit(c) || c == '_',
        CharClass::NotNewline => c != '\n',
    }
}

/// Whether `v[from..to]` spells out `w`.
fn chars_eq(v: &Vec<char>, from: usize, to: usize, w: &[char]) -> (b: bool)
    requires
        from <= to <= v.len(),
    ensures
        b == (v@.subrange(from as int, to as int) == w@),
{
    if to - from != w.len() {
        assert(v@.subrange(from as int, to as int).len() != w@.len());
        return false;
    }
    let mut i: usize = 0;
    while i < w.len()
        invariant
            from <= to <= v.len(),
            to - from == w.len(),
            i <= w.len(),
            forall|k: int| 0 <= k < i ==> v@[from + k] == w@[k],
        decreases w.len() - i,
    {
        if v[from + i] != w[i] {
            assert(v@.subrange(from as int, to as int)[i as int] != w@[i as int]);
            return false;
        }
        i = i + 1;
    }
    assert(v@.subrange(from as int, to as int) =~= w@);
    true
}

/// The keyword spelled by `v[from..to]`, if any.
fn keyword_kind(v: &Vec<char>, from: usize, to: usize) -> (k: Option<TokenKind>)
    requires
        from <= to <= v.len(),
    ensures
        k == spec_keyword(v@.subrange(from as int, to as int)),
{
    if chars_eq(v, from, to, &['p', 'a', 'r']) {
        Some(TokenKind::Par)
    } else if chars_eq(v, from, to, &['k', 'u', 'n', 'g']) {
        Some(TokenKind::Kung)
    } else if chars_eq(v, from, to, &['k', 'u', 'n', 'g', 'd', 'i']) {
        Some(TokenKind::Kungdi)
    } else if chars_eq(v, from, to, &['k', 'u', 'n', 'g', 'w', 'a', 'l', 'a']) {
        Some(TokenKind::Kungwala)
    } else if chars_eq(v, from, to, &['i', 'b', 'a', 'l', 'i', 'k']) {
        Some(TokenKind::Ibalik)
    } else {
        None
    }
}

} // verus!

verus! {

// ---------------------------------------------------------------------------
// Laws of the lexer.
// ---------------------------------------------------------------------------

/// Each token spans a range of at most `bound` bytes, and the tokens come in
/// the order of the source without overlapping.
pub open spec fn spans_ordered(toks: Seq<TokenV>, bound: nat) -> bool {
    &&& forall|k: int|
        0 <= k < toks.len() ==> #[trigger] toks[k].span.start <= toks[k].span.end <= bound
    &&& forall|k: int, l: int|
        0 <= k < l < toks.len() ==> #[trigger] toks[k].span.end <= #[trigger] toks[l].span.start
}

proof fn lemma_spans_push(toks: Seq<TokenV>, x: nat, tok: TokenV, y: nat)
    requires
        spans_ordered(toks, x),
        x <= tok.span.start <= tok.span.end <= y,
        x <= y,
    ensures
        spans_ordered(toks.push(tok), y),
{
    let t2 = toks.push(tok);
    assert forall|k: int, l: int| 0 <= k < l < t2.len() implies #[trigger] t2[k].span.end
        <= #[trigger] t2[l].span.start by {
        if l == toks.len() {
            assert(t2[k] == toks[k]);
            assert(toks[k].span.start <= toks[k].span.end <= x);
            assert(t2[l] == tok);
        } else {
            assert(t2[k] == toks[k] && t2[l] == toks[l]);
        }
    }
    assert forall|k: int| 0 <= k < t2.len() implies #[trigger] t2[k].span.start <= t2[k].span.end
        <= y by {
        if k < toks.len() {
            assert(t2[k] == toks[k]);
        }
    }
}

proof fn lemma_bpos_bound(src: Seq<char>, a: int)
    requires
        0 <= a <= src.len(),
    ensures
        bpos(src, a) <= byte_len(src),
{
    lemma_bpos_mono(src, a, src.len() as int);
    assert(src.take(src.len() as int) =~= src);
}

proof fn lemma_mk_token_span(src: Seq<char>, a: int, b: int, kind: TokenKind)
    requires
        0 <= a <= b <= src.len(),
        byte_len(src) <= usize::MAX,
    ensures
        mk_token(src, a, b, kind).span.start == bpos(src, a),
        mk_token(src, a, b, kind).span.end == bpos(src, b),
        bpos(src, a) <= bpos(src, b) <= byte_len(src),
{
    lemma_bpos_mono(src, a, b);
    lemma_bpos_bound(src, b);
}

proof fn lemma_lex_step_spans(src: Seq<char>, i: int, depth: int, toks: Seq<TokenV>)
    requires
        0 <= i < src.len(),
        byte_len(src) <= usize::MAX,
        spans_ordered(toks, bpos(src, i)),
        lex_step(src, i, depth, toks) is Some,
    ensures
        spans_ordered(
            lex_step(src, i, depth, toks).unwrap().2,
            bpos(src, lex_step(src, i, depth, toks).unwrap().0),
        ),
{
    lemma_lex_step_advances(src, i, depth, toks);
    let (i2, d2, t2) = lex_step(src, i, depth, toks).unwrap();
    lemma_bpos_mono(src, i, i2);
    if t2.len() == toks.len() + 1 {
        assert(t2 == toks.push(t2.last()));
        lemma_bpos_bound(src, i2);
        let c = src[i];
        if c == '\n' {
            lemma_bpos_step(src, i);
        } else {
            lemma_mk_token_span(src, i, i2, t2.last().kind);
        }
        lemma_spans_push(toks, bpos(src, i), t2.last(), bpos(src, i2));
    } else {
        assert(t2 == toks);
    }
}

proof fn lemma_lex_loop_spans(src: Seq<char>, i: int, depth: int, toks: Seq<TokenV>)
    requires
        0 <= i <= src.len(),
        byte_len(src) <= usize::MAX,
        spans_ordered(toks, bpos(src, i)),
        lex_loop(src, i, depth, toks) is Some,
    ensures
        spans_ordered(lex_loop(src, i, depth, toks).unwrap(), byte_len(src)),
    decreases src.len() - i,
{
    if i == src.len() {
        assert(src.take(i) =~= src);
    } else {
        lemma_lex_step_spans(src, i, depth, toks);
        lemma_lex_step_advances(src, i, depth, toks);
        let (i2, d2, t2) = lex_step(src, i, depth, toks).unwrap();
        lemma_lex_loop_spans(src, i2, d2, t2);
    }
}

/// The tokens of a source lie within it, in order and without overlap: every
/// span is a range of byte offsets of the source, and each token ends where
/// or before the next one starts.
pub proof fn lemma_token_spans_ordered(src: Seq<char>)
    requires
        lexable(src),
    ensures
        spans_ordered(lex_spec(src).unwrap(), byte_len(src)),
{
    lemma_lex_loop_spans(src, 0, 0, Seq::empty());
}

} // verus!

verus! {

/// `tok` is the text of the source between two character positions, spanning
/// the bytes in between; or it is a `;` inferred at a line break.
pub open spec fn token_from_source(src: Seq<char>, tok: TokenV) -> bool {
    ||| exists|a: int, b: int|
        0 <= a <= b <= src.len() && #[trigger] mk_token(src, a, b, tok.kind) == tok
    ||| exists|a: int| 0 <= a < src.len() && src[a] == '\n' && #[trigger] inferred_semicolon(src, a) == tok
}

proof fn lemma_lex_loop_from_source(src: Seq<char>, i: int, depth: int, toks: Seq<TokenV>)
    requires
        0 <= i <= src.len(),
        forall|k: int| 0 <= k < toks.len() ==> token_from_source(src, #[trigger] toks[k]),
        lex_loop(src, i, depth, toks) is Some,
    ensures
        forall|k: int|
            0 <= k < lex_loop(src, i, depth, toks).unwrap().len() ==> token_from_source(
                src,
                #[trigger] lex_loop(src, i, depth, toks).unwrap()[k],
            ),
    decreases src.len() - i,
{
    if i < src.len() {
        lemma_lex_step_advances(src, i, depth, toks);
        let (i2, d2, t2) = lex_step(src, i, depth, toks).unwrap();
        if t2.len() == toks.len() + 1 {
            assert(t2 == toks.push(t2.last()));
            let tok = t2.last();
            if src[i] == '\n' {
                assert(inferred_semicolon(src, i) == tok);
            } else {
                assert(mk_token(src, i, i2, tok.kind) == tok);
            }
            assert(token_from_source(src, tok));
            assert forall|k: int| 0 <= k < t2.len() implies token_from_source(src, #[trigger] t2[k]) by {
                if k < toks.len() {
                    assert(t2[k] == toks[k]);
                }
            }
        } else {
            assert(t2 == toks);
        }
        lemma_lex_loop_from_source(src, i2, d2, t2);
    }
}

/// Every token is read off the source: its text is the text of the source
/// at the positions that its span gives in bytes, except for the `;` that a
/// line break stands for.
pub proof fn lemma_tokens_from_source(src: Seq<char>)
    requires
        lexable(src),
    ensures
        forall|k: int|
            0 <= k < lex_spec(src).unwrap().len() ==> token_from_source(
                src,
                #[trigger] lex_spec(src).unwrap()[k],
            ),
{
    lemma_lex_loop_from_source(src, 0, 0, Seq::empty());
}

} // verus!

verus! {

/// Tokens that can end a statement: a name, a literal, a closing bracket or
/// `ibalik`.
pub open spec fn ends_a_value(k: TokenKind) -> bool {
    k == TokenKind::Identifier || k == TokenKind::IntLiteral || k == TokenKind::FloatLiteral || k
        == TokenKind::RParen || k == TokenKind::RSquare || k == TokenKind::RBrace || k
        == TokenKind::Ibalik
}

/// A line break outside brackets right after a name, a literal (integer or
/// float), a closing bracket or `ibalik` stands for a `;` spanning the line
/// break; after any other token, or inside brackets, it is skipped.
pub proof fn lemma_line_break_ends_statement(src: Seq<char>, i: int, depth: int, toks: Seq<TokenV>)
    requires
        0 <= i < src.len(),
        src[i] == '\n',
        toks.len() > 0,
    ensures
        depth == 0 && ends_a_value(toks.last().kind) ==> lex_step(src, i, depth, toks) == Some(
            (
                i + 1,
                depth,
                toks.push(
                    TokenV {
                        lexeme: seq![';'],
                        kind: TokenKind::Semicolon,
                        span: Span { start: bpos(src, i) as usize, end: bpos(src, i + 1) as usize },
                    },
                ),
            ),
        ),
        !(depth == 0 && ends_a_value(toks.last().kind)) ==> lex_step(src, i, depth, toks) == Some(
            (i + 1, depth, toks),
        ),
{
}

} // verus!
