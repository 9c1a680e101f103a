//! The lexer: a single left-to-right pass over the source characters,
//! producing the token stream that the parser consumes, terminated by an
//! end-of-input token. Its behaviour is fixed by a spec-level scanner over
//! character sequences, which the executable methods are proved to match.
use vstd::prelude::*;
use vstd::string::{StrSliceExecFns, StringExecFns};
use crate::common::{push_char, format_usize, spec_decimal};
use crate::numerics::{num_parse, spec_num_parse};
use crate::token::{Token, TokenModel, TokenType, TokenTypeModel};
use crate::value::{ErrorModel, UvlError};

verus! {

/// Whether `c` is a decimal digit.
pub open spec fn spec_is_digit(c: char) -> bool {
    48 <= c as u32 && c as u32 <= 57
}

/// Whether `c` is an alphabetic character, as the standard library's
/// Unicode tables have it.
pub uninterp spec fn spec_char_alphabetic(c: char) -> bool;

/// Whether `c` is an alphanumeric character, as the standard library's
/// Unicode tables have it.
pub uninterp spec fn spec_char_alphanumeric(c: char) -> bool;

/// Whether `c` may continue an identifier.
pub open spec fn spec_ident_continue(c: char) -> bool {
    spec_char_alphabetic(c) || spec_char_alphanumeric(c)
}

/// Relies on `char::is_alphabetic`: the result depends on the character
/// alone.
#[verifier::external_body]
fn char_is_alphabetic(c: char) -> (r: bool)
    ensures
        r == spec_char_alphabetic(c),
{
    c.is_alphabetic()
}

/// Relies on `char::is_alphanumeric`: the result depends on the character
/// alone.
#[verifier::external_body]
fn char_is_alphanumeric(c: char) -> (r: bool)
    ensures
        r == spec_char_alphanumeric(c),
{
    c.is_alphanumeric()
}

/// Whether `c` is a decimal digit.
fn is_digit_char(c: char) -> (r: bool)
    ensures
        r == spec_is_digit(c),
{
    let u = c as u32;
    48 <= u && u <= 57
}

/// The end of the run of decimal digits starting at `pos`.
pub open spec fn spec_digit_run_end(s: Seq<char>, pos: int) -> int
    decreases s.len() - pos,
{
    if pos < 0 || pos >= s.len() || !spec_is_digit(s[pos]) {
        pos
    } else {
        spec_digit_run_end(s, pos + 1)
    }
}

/// The end of the run of identifier characters starting at `pos`.
pub open spec fn spec_ident_run_end(s: Seq<char>, pos: int) -> int
    decreases s.len() - pos,
{
    if pos < 0 || pos >= s.len() || !spec_ident_continue(s[pos]) {
        pos
    } else {
        spec_ident_run_end(s, pos + 1)
    }
}

/// The position of the newline that ends a line comment starting before
/// `pos`, or the end of input.
pub open spec fn spec_comment_end(s: Seq<char>, pos: int) -> int
    decreases s.len() - pos,
{
    if pos < 0 || pos >= s.len() || s[pos] == '\n' {
        pos
    } else {
        spec_comment_end(s, pos + 1)
    }
}

/// Scans a string literal's interior from `pos`: the position of the closing
/// quote (or the end of input) and the line counter after the embedded
/// newlines.
pub open spec fn spec_string_scan(s: Seq<char>, pos: int, line: nat) -> (int, nat)
    decreases s.len() - pos,
{
    if pos < 0 || pos >= s.len() || s[pos] == '"' {
        (pos, line)
    } else {
        spec_string_scan(s, pos + 1, if s[pos] == '\n' { line + 1 } else { line })
    }
}

/// The end of the numeric literal starting at the digit at `pos`: a digit
/// run, optionally followed by a point and another digit run; the point is
/// only taken when a digit follows it.
pub open spec fn spec_number_end(s: Seq<char>, pos: int) -> int {
    let e1 = spec_digit_run_end(s, pos);
    if e1 < s.len() && s[e1] == '.' && e1 + 1 < s.len() && spec_is_digit(s[e1 + 1]) {
        spec_digit_run_end(s, e1 + 1)
    } else {
        e1
    }
}

/// The category of an alphabetic-initial run: one of the reserved keywords,
/// or an identifier.
pub open spec fn spec_keyword_type(t: Seq<char>) -> TokenTypeModel {
    if t == "and"@ {
        TokenTypeModel::And
    } else if t == "class"@ {
        TokenTypeModel::Class
    } else if t == "else"@ {
        TokenTypeModel::Else
    } else if t == "false"@ {
        TokenTypeModel::False
    } else if t == "for"@ {
        TokenTypeModel::For
    } else if t == "fun"@ {
        TokenTypeModel::Fun
    } else if t == "if"@ {
        TokenTypeModel::If
    } else if t == "nil"@ {
        TokenTypeModel::Nil
    } else if t == "mut"@ {
        TokenTypeModel::Mut
    } else if t == "or"@ {
        TokenTypeModel::Or
    } else if t == "println"@ {
        TokenTypeModel::PrintLn
    } else if t == "return"@ {
        TokenTypeModel::Return
    } else if t == "super"@ {
        TokenTypeModel::Super
    } else if t == "this"@ {
        TokenTypeModel::This
    } else if t == "true"@ {
        TokenTypeModel::True
    } else if t == "let"@ {
        TokenTypeModel::Let
    } else if t == "const"@ {
        TokenTypeModel::Const
    } else if t == "while"@ {
        TokenTypeModel::While
    } else {
        TokenTypeModel::Identifier
    }
}

/// The diagnostic for a character the lexer does not recognize.
pub open spec fn spec_unexpected_char_msg(line: nat, c: char) -> Seq<char> {
    "[line "@ + spec_decimal(line) + "] Unexpected character '"@ + seq![c] + "'"@
}

/// The diagnostic for a string literal with no closing quote.
pub open spec fn spec_unterminated_msg(line: nat) -> Seq<char> {
    "[line "@ + spec_decimal(line) + "] Unterminated string"@
}

/// A token model built from its parts.
pub open spec fn spec_token(tt: TokenTypeModel, lexeme: Seq<char>, line: nat) -> TokenModel {
    TokenModel { ttype: tt, lexeme, line }
}

/// One step of the scanner at the character at `pos`: the position and line
/// afterwards and the token produced, if any; or the lexing fault. Two-
/// character operators, comments, numbers, identifiers, keywords and string
/// literals are each consumed whole; whitespace is skipped and newlines
/// advance the line counter.
pub open spec fn spec_scan_token(s: Seq<char>, pos: int, line: nat) -> Result<
    (int, nat, Option<TokenModel>),
    ErrorModel,
> {
    let c = s[pos];
    if c == '(' {
        Ok((pos + 1, line, Some(spec_token(TokenTypeModel::LeftParen, s.subrange(pos, pos + 1), line))))
    } else if c == ')' {
        Ok((pos + 1, line, Some(spec_token(TokenTypeModel::RightParen, s.subrange(pos, pos + 1), line))))
    } else if c == '{' {
        Ok((pos + 1, line, Some(spec_token(TokenTypeModel::LeftBrace, s.subrange(pos, pos + 1), line))))
    } else if c == '}' {
        Ok((pos + 1, line, Some(spec_token(TokenTypeModel::RightBrace, s.subrange(pos, pos + 1), line))))
    } else if c == ',' {
        Ok((pos + 1, line, Some(spec_token(TokenTypeModel::Comma, s.subrange(pos, pos + 1), line))))
    } else if c == '.' {
        Ok((pos + 1, line, Some(spec_token(TokenTypeModel::Dot, s.subrange(pos, pos + 1), line))))
    } else if c == '-' {
        Ok((pos + 1, line, Some(spec_token(TokenTypeModel::Minus, s.subrange(pos, pos + 1), line))))
    } else if c == '+' {
        Ok((pos + 1, line, Some(spec_token(TokenTypeModel::Plus, s.subrange(pos, pos + 1), line))))
    } else if c == ';' {
        Ok((pos + 1, line, Some(spec_token(TokenTypeModel::Semicolon, s.subrange(pos, pos + 1), line))))
    } else if c == '*' {
        Ok((pos + 1, line, Some(spec_token(TokenTypeModel::Star, s.subrange(pos, pos + 1), line))))
    } else if c == '!' {
        if pos + 1 < s.len() && s[pos + 1] == '=' {
            Ok((pos + 2, line, Some(spec_token(TokenTypeModel::BangEqual, s.subrange(pos, pos + 2), line))))
        } else {
            Ok((pos + 1, line, Some(spec_token(TokenTypeModel::Bang, s.subrange(pos, pos + 1), line))))
        }
    } else if c == '=' {
        if pos + 1 < s.len() && s[pos + 1] == '=' {
            Ok((pos + 2, line, Some(spec_token(TokenTypeModel::EqualEqual, s.subrange(pos, pos + 2), line))))
        } else {
            Ok((pos + 1, line, Some(spec_token(TokenTypeModel::Equal, s.subrange(pos, pos + 1), line))))
        }
    } else if c == '<' {
        if pos + 1 < s.len() && s[pos + 1] == '=' {
            Ok((pos + 2, line, Some(spec_token(TokenTypeModel::LessEqual, s.subrange(pos, pos + 2), line))))
        } else {
            Ok((pos + 1, line, Some(spec_token(TokenTypeModel::Less, s.subrange(pos, pos + 1), line))))
        }
    } else if c == '>' {
        if pos + 1 < s.len() && s[pos + 1] == '=' {
            Ok((pos + 2, line, Some(spec_token(TokenTypeModel::GreaterEqual, s.subrange(pos, pos + 2), line))))
        } else {
            Ok((pos + 1, line, Some(spec_token(TokenTypeModel::Greater, s.subrange(pos, pos + 1), line))))
        }
    } else if c == '/' {
        if pos + 1 < s.len() && s[pos + 1] == '/' {
            Ok((spec_comment_end(s, pos + 2), line, None))
        } else {
            Ok((pos + 1, line, Some(spec_token(TokenTypeModel::Slash, s.subrange(pos, pos + 1), line))))
        }
    } else if spec_is_digit(c) {
        let e = spec_number_end(s, pos);
        Ok((e, line, Some(spec_token(
            TokenTypeModel::Number(spec_num_parse(s.subrange(pos, e))),
            s.subrange(pos, e),
            line,
        ))))
    } else if spec_char_alphabetic(c) {
        let e = spec_ident_run_end(s, pos + 1);
        Ok((e, line, Some(spec_token(spec_keyword_type(s.subrange(pos, e)), s.subrange(pos, e), line))))
    } else if c == '"' {
        let (e, l2) = spec_string_scan(s, pos + 1, line);
        if e >= s.len() {
            Err(ErrorModel::LexError(spec_unterminated_msg(l2)))
        } else {
            Ok((e + 1, l2, Some(spec_token(
                TokenTypeModel::Str(s.subrange(pos + 1, e)),
                s.subrange(pos, e + 1),
                l2,
            ))))
        }
    } else if c == '\n' {
        Ok((pos + 1, line + 1, None))
    } else if c == ' ' || c == '\r' || c == '\t' {
        Ok((pos + 1, line, None))
    } else {
        Err(ErrorModel::LexError(spec_unexpected_char_msg(line, c)))
    }
}

/// The token stream scanned from `pos` on, ending with the end-of-input
/// token, or the first lexing fault. The function is total: the arm for a
/// step that consumed nothing can never be reached from a real scan, as the
/// progress lemma below shows.
pub open spec fn spec_scan_from(s: Seq<char>, pos: int, line: nat) -> Result<
    Seq<TokenModel>,
    ErrorModel,
>
    decreases s.len() - pos,
{
    if pos < 0 {
        Ok(Seq::empty())
    } else if pos >= s.len() {
        Ok(seq![spec_token(TokenTypeModel::Eof, Seq::empty(), line)])
    } else {
        match spec_scan_token(s, pos, line) {
            Err(e) => Err(e),
            Ok((p2, l2, t)) => if !(pos < p2 <= s.len()) {
                Ok(Seq::empty())
            } else {
                match spec_scan_from(s, p2, l2) {
                    Err(e) => Err(e),
                    Ok(rest) => Ok(
                        match t {
                            Some(tk) => seq![tk] + rest,
                            None => rest,
                        },
                    ),
                }
            },
        }
    }
}

/// The token stream of a whole source text, or its first lexing fault.
pub open spec fn spec_scan(s: Seq<char>) -> Result<Seq<TokenModel>, ErrorModel> {
    spec_scan_from(s, 0, 0)
}

/// The models of a vector of tokens.
pub open spec fn tokens_model(ts: Seq<Token>) -> Seq<TokenModel> {
    ts.map_values(|t: Token| t@)
}

/// A digit run ends no earlier than it starts and no later than the input.
proof fn lemma_digit_run_end_bounds(s: Seq<char>, pos: int)
    requires
        0 <= pos <= s.len(),
    ensures
        pos <= spec_digit_run_end(s, pos) <= s.len(),
    decreases s.len() - pos,
{
    if pos < s.len() && spec_is_digit(s[pos]) {
        lemma_digit_run_end_bounds(s, pos + 1);
    }
}

/// An identifier run ends no earlier than it starts and no later than the
/// input.
proof fn lemma_ident_run_end_bounds(s: Seq<char>, pos: int)
    requires
        0 <= pos <= s.len(),
    ensures
        pos <= spec_ident_run_end(s, pos) <= s.len(),
    decreases s.len() - pos,
{
    if pos < s.len() && spec_ident_continue(s[pos]) {
        lemma_ident_run_end_bounds(s, pos + 1);
    }
}

/// A comment ends no earlier than it starts and no later than the input.
proof fn lemma_comment_end_bounds(s: Seq<char>, pos: int)
    requires
        0 <= pos <= s.len(),
    ensures
        pos <= spec_comment_end(s, pos) <= s.len(),
    decreases s.len() - pos,
{
    if pos < s.len() && s[pos] != '\n' {
        lemma_comment_end_bounds(s, pos + 1);
    }
}

/// A string scan ends no earlier than it starts and no later than the input.
proof fn lemma_string_scan_bounds(s: Seq<char>, pos: int, line: nat)
    requires
        0 <= pos <= s.len(),
    ensures
        pos <= spec_string_scan(s, pos, line).0 <= s.len(),
    decreases s.len() - pos,
{
    if pos < s.len() && s[pos] != '"' {
        lemma_string_scan_bounds(s, pos + 1, if s[pos] == '\n' { line + 1 } else { line });
    }
}

/// Each successful scanner step consumes at least one character and stays
/// within the input.
proof fn lemma_scan_token_progress(s: Seq<char>, pos: int, line: nat)
    requires
        0 <= pos < s.len(),
    ensures
        match spec_scan_token(s, pos, line) {
            Ok((p2, _, _)) => pos < p2 <= s.len(),
            Err(_) => true,
        },
{
    let c = s[pos];
    if c == '/' && pos + 1 < s.len() && s[pos + 1] == '/' {
        lemma_comment_end_bounds(s, pos + 2);
    } else if spec_is_digit(c) {
        lemma_digit_run_end_bounds(s, pos + 1);
        let e1 = spec_digit_run_end(s, pos);
        assert(e1 == spec_digit_run_end(s, pos + 1));
        if e1 < s.len() && s[e1] == '.' && e1 + 1 < s.len() && spec_is_digit(s[e1 + 1]) {
            lemma_digit_run_end_bounds(s, e1 + 1);
        }
    } else if !(c == '(' || c == ')' || c == '{' || c == '}' || c == ',' || c == '.' || c == '-'
        || c == '+' || c == ';' || c == '*' || c == '!' || c == '=' || c == '<' || c == '>' || c
        == '/') && spec_char_alphabetic(c) {
        lemma_ident_run_end_bounds(s, pos + 1);
    } else if !(c == '(' || c == ')' || c == '{' || c == '}' || c == ',' || c == '.' || c == '-'
        || c == '+' || c == ';' || c == '*' || c == '!' || c == '=' || c == '<' || c == '>' || c
        == '/' || spec_is_digit(c) || spec_char_alphabetic(c)) && c == '"' {
        lemma_string_scan_bounds(s, pos + 1, line);
    }
}

/// The lexemes of a token stream, concatenated in order.
pub open spec fn spec_concat_lexemes(toks: Seq<TokenModel>) -> Seq<char>
    decreases toks.len(),
{
    if toks.len() == 0 {
        Seq::empty()
    } else {
        toks[0].lexeme + spec_concat_lexemes(toks.drop_first())
    }
}

/// Whether a source text contains no character the lexer discards: no
/// whitespace, no newline, and no line comment.
pub open spec fn spec_no_discarded(s: Seq<char>) -> bool {
    &&& forall|i: int|
        0 <= i < s.len() ==> ((#[trigger] s[i]) != ' ' && s[i] != '\r' && s[i] != '\t' && s[i]
            != '\n')
    &&& forall|i: int|
        #![trigger s[i], s[i + 1]]
        0 <= i < s.len() - 1 ==> !(s[i] == '/' && s[i + 1] == '/')
}

/// On a discard-free source, every consumed span becomes a lexeme, so the
/// lexemes scanned from `pos` concatenate back to the rest of the source.
proof fn lemma_scan_from_concat(s: Seq<char>, pos: int, line: nat)
    requires
        spec_no_discarded(s),
        0 <= pos <= s.len(),
    ensures
        match spec_scan_from(s, pos, line) {
            Ok(toks) => spec_concat_lexemes(toks) =~= s.skip(pos),
            Err(_) => true,
        },
    decreases s.len() - pos,
{
    reveal_with_fuel(spec_concat_lexemes, 2);
    if pos >= s.len() {
        assert(spec_concat_lexemes(seq![
            spec_token(TokenTypeModel::Eof, Seq::empty(), line),
        ]) =~= Seq::<char>::empty());
    } else {
        lemma_scan_token_progress(s, pos, line);
        match spec_scan_token(s, pos, line) {
            Err(_) => {},
            Ok((p2, l2, t)) => {
                lemma_scan_from_concat(s, p2, l2);
                match spec_scan_from(s, p2, l2) {
                    Err(_) => {},
                    Ok(rest) => {
                        match t {
                            Some(tk) => {
                                assert(tk.lexeme =~= s.subrange(pos, p2));
                                assert(spec_concat_lexemes(seq![tk] + rest) =~= tk.lexeme
                                    + spec_concat_lexemes(rest)) by {
                                    assert((seq![tk] + rest)[0] == tk);
                                    assert((seq![tk] + rest).drop_first() =~= rest);
                                }
                                assert(s.subrange(pos, p2) + s.skip(p2) =~= s.skip(pos));
                            },
                            None => {
                                assert(false);
                            },
                        }
                    },
                }
            },
        }
    }
}

/// Law: on a source with no discarded characters, re-concatenating the
/// scanned lexemes reconstructs the source exactly, so re-lexing the
/// reconstruction yields the same token stream. (With whitespace or
/// comments in the source the reconstruction can merge adjacent tokens and
/// the property fails.)
pub proof fn lemma_lex_round_trip(s: Seq<char>)
    requires
        spec_no_discarded(s),
        spec_scan(s) is Ok,
    ensures
        match spec_scan(s) {
            Ok(toks) => spec_concat_lexemes(toks) == s && spec_scan(spec_concat_lexemes(toks))
                == Ok::<Seq<TokenModel>, crate::value::ErrorModel>(toks),
            Err(_) => false,
        },
{
    lemma_scan_from_concat(s, 0, 0);
    if let Ok(toks) = spec_scan(s) {
        assert(s.skip(0) =~= s);
    }
}

/// A scanned token stream is never empty and ends with the end-of-input
/// token.
pub proof fn lemma_scan_from_ok_shape(s: Seq<char>, pos: int, line: nat)
    requires
        0 <= pos,
    ensures
        match spec_scan_from(s, pos, line) {
            Ok(toks) => toks.len() >= 1 && toks.last().ttype.kind()
                == crate::token::TokenKind::Eof,
            Err(_) => true,
        },
    decreases s.len() - pos,
{
    if pos < s.len() {
        lemma_scan_token_progress(s, pos, line);
        if let Ok((p2, l2, _)) = spec_scan_token(s, pos, line) {
            lemma_scan_from_ok_shape(s, p2, l2);
        }
    }
}

/// The lexer's cursor: the start of the lexeme in hand, the character about
/// to be read, and the current line.
pub struct LexerState {
    pub start: usize,
    pub current: usize,
    pub line: usize,
}

impl LexerState {
    pub fn new() -> (r: LexerState)
        ensures
            r.start == 0,
            r.current == 0,
            r.line == 0,
    {
        LexerState { start: 0, current: 0, line: 0 }
    }
}

/// The lexer over one source text.
pub struct Lexer<'a> {
    pub source: &'a str,
    pub state: LexerState,
}

impl<'a> Lexer<'a> {
    /// The source being scanned.
    pub open spec fn src(&self) -> Seq<char> {
        self.source@
    }

    /// The cursor's well-formedness: in bounds, with the lexeme start at or
    /// before it and the line counter no larger than it.
    pub open spec fn wf(&self) -> bool {
        &&& self.state.start <= self.state.current <= self.src().len()
        &&& self.state.line <= self.state.current
    }

    pub fn new(source: &'a str) -> (r: Lexer<'a>)
        ensures
            r.src() == source@,
            r.state.start == 0,
            r.state.current == 0,
            r.state.line == 0,
    {
        Lexer { source, state: LexerState::new() }
    }

    /// The character under the cursor, or the null character at the end.
    fn peek(&self) -> (c: char)
        requires
            self.state.current <= self.src().len(),
    ensures
            c == if self.state.current < self.src().len() {
                self.src()[self.state.current as int]
            } else {
                '\0'
            },
    {
        if self.state.current < self.source.unicode_len() {
            self.source.get_char(self.state.current)
        } else {
            '\0'
        }
    }

    /// The character after the cursor, or the null character at the end.
    fn peek_next(&self) -> (c: char)
        requires
            self.state.current < self.src().len(),
        ensures
            c == if self.state.current + 1 < self.src().len() {
                self.src()[self.state.current + 1]
            } else {
                '\0'
            },
    {
        let n = self.source.unicode_len();
        if self.state.current < n - 1 {
            self.source.get_char(self.state.current + 1)
        } else {
            '\0'
        }
    }

    /// Reads the character under the cursor and moves past it.
    fn advance(&mut self) -> (c: char)
        requires
            old(self).state.current < old(self).src().len(),
        ensures
            final(self).source == old(self).source,
            final(self).state.start == old(self).state.start,
            final(self).state.line == old(self).state.line,
            final(self).state.current == old(self).state.current + 1,
            c == old(self).src()[old(self).state.current as int],
    {
        let n = self.source.unicode_len();
        let c = self.source.get_char(self.state.current);
        proof {
            assert(self.state.current < n);
        }
        self.state.current = self.state.current + 1;
        c
    }

    /// Moves past the character under the cursor exactly when it is
    /// `expected`.
    fn match_next(&mut self, expected: char) -> (r: bool)
        requires
            old(self).state.current <= old(self).src().len(),
        ensures
            final(self).source == old(self).source,
            final(self).state.start == old(self).state.start,
            final(self).state.line == old(self).state.line,
            r == (old(self).state.current < old(self).src().len() && old(self).src()[old(
                self,
            ).state.current as int] == expected),
            final(self).state.current == if r {
                old(self).state.current + 1
            } else {
                old(self).state.current as int
            },
    {
        if self.state.current >= self.source.unicode_len() {
            return false;
        }
        let next_char = self.source.get_char(self.state.current);
        if next_char != expected {
            return false;
        }
        self.state.current = self.state.current + 1;
        true
    }

    /// Appends a token whose lexeme is the text between the lexeme start and
    /// the cursor.
    fn add_token(&mut self, tokens: &mut Vec<Token>, ttype: TokenType)
        requires
            old(self).state.start <= old(self).state.current <= old(self).src().len(),
        ensures
            *final(self) == *old(self),
            tokens_model(final(tokens)@) =~= tokens_model(old(tokens)@) + seq![
                spec_token(
                    ttype@,
                    old(self).src().subrange(
                        old(self).state.start as int,
                        old(self).state.current as int,
                    ),
                    old(self).state.line as nat,
                ),
            ],
    {
        let text = self.source.substring_char(self.state.start, self.state.current);
        tokens.push(Token::new(ttype, String::from_str(text), self.state.line));
    }

    /// Scans the rest of a string literal, the opening quote already
    /// consumed: the literal's payload is the text strictly between the
    /// quotes, embedded newlines advance the line counter, and a missing
    /// closing quote is a lexing fault.
    fn scan_string(&mut self, tokens: &mut Vec<Token>) -> (r: Result<(), UvlError>)
        requires
            old(self).wf(),
            old(self).state.current == old(self).state.start + 1,
            old(self).state.start < old(self).src().len(),
        ensures
            final(self).source == old(self).source,
            final(self).state.start == old(self).state.start,
            final(self).wf(),
            ({
                let (e, l2) = spec_string_scan(
                    old(self).src(),
                    old(self).state.current as int,
                    old(self).state.line as nat,
                );
                match r {
                    Ok(_) => {
                        &&& e < old(self).src().len()
                        &&& final(self).state.current == e + 1
                        &&& final(self).state.line == l2
                        &&& tokens_model(final(tokens)@) =~= tokens_model(old(tokens)@) + seq![
                            spec_token(
                                TokenTypeModel::Str(
                                    old(self).src().subrange(
                                        old(self).state.start + 1,
                                        e,
                                    ),
                                ),
                                old(self).src().subrange(old(self).state.start as int, e + 1),
                                l2,
                            ),
                        ]
                    },
                    Err(er) => {
                        &&& e >= old(self).src().len()
                        &&& er@ == ErrorModel::LexError(spec_unterminated_msg(l2))
                        &&& *final(tokens) == *old(tokens)
                    },
                }
            }),
    {
        let ghost s = self.src();
        let ghost pos0 = self.state.current as int;
        let ghost line0 = self.state.line as nat;
        let n = self.source.unicode_len();
        let mut c = self.peek();
        while c != '"' && self.state.current < n
            invariant
                self.source == old(self).source,
                self.state.start == old(self).state.start,
                self.wf(),
                n == s.len(),
                s == self.src(),
                c == if self.state.current < s.len() {
                    s[self.state.current as int]
                } else {
                    '\0'
                },
                spec_string_scan(s, pos0, line0) == spec_string_scan(
                    s,
                    self.state.current as int,
                    self.state.line as nat,
                ),
            decreases s.len() - self.state.current,
        {
            if c == '\n' {
                self.state.line = self.state.line + 1;
            }
            let _ = self.advance();
            c = self.peek();
        }
        proof {
            assert(spec_string_scan(s, self.state.current as int, self.state.line as nat) == (
                self.state.current as int,
                self.state.line as nat,
            ));
        }
        if self.state.current >= n {
            let mut m = String::from_str("[line ");
            let ln = format_usize(self.state.line);
            m.append(ln.as_str());
            m.append("] Unterminated string");
            assert(m@ =~= spec_unterminated_msg(self.state.line as nat));
            return Err(UvlError::LexError(m));
        }
        proof {
            lemma_string_scan_bounds(s, pos0, line0);
        }
        let _ = self.advance();
        let e = self.state.current - 1;
        let payload = self.source.substring_char(self.state.start + 1, e);
        let lexeme = self.source.substring_char(self.state.start, e + 1);
        tokens.push(
            Token::new(
                TokenType::Str(String::from_str(payload)),
                String::from_str(lexeme),
                self.state.line,
            ),
        );
        Ok(())
    }

    /// Scans the rest of a numeric literal, the first digit already
    /// consumed: a digit run, then a fractional part only where a point is
    /// followed by a digit; the payload is the parsed 64-bit value.
    fn scan_number(&mut self, tokens: &mut Vec<Token>)
        requires
            old(self).wf(),
            old(self).state.current == old(self).state.start + 1,
            old(self).state.start < old(self).src().len(),
            spec_is_digit(old(self).src()[old(self).state.start as int]),
        ensures
            final(self).source == old(self).source,
            final(self).state.start == old(self).state.start,
            final(self).state.line == old(self).state.line,
            final(self).wf(),
            ({
                let e = spec_number_end(old(self).src(), old(self).state.start as int);
                &&& final(self).state.current == e
                &&& tokens_model(final(tokens)@) =~= tokens_model(old(tokens)@) + seq![
                    spec_token(
                        TokenTypeModel::Number(
                            spec_num_parse(
                                old(self).src().subrange(old(self).state.start as int, e),
                            ),
                        ),
                        old(self).src().subrange(old(self).state.start as int, e),
                        old(self).state.line as nat,
                    ),
                ]
            }),
    {
        let ghost s = self.src();
        let ghost start0 = self.state.start as int;
        self.run_digits();
        proof {
            assert(spec_digit_run_end(s, start0) == spec_digit_run_end(s, start0 + 1));
        }
        let c = self.peek();
        if c == '.' {
            let c2 = self.peek_next();
            if is_digit_char(c2) {
                let _ = self.advance();
                self.run_digits();
            }
        }
        let text = self.source.substring_char(self.state.start, self.state.current);
        let bits = num_parse(text);
        tokens.push(Token::new(TokenType::Number(bits), String::from_str(text), self.state.line));
    }

    /// Moves the cursor past the run of digits under it.
    fn run_digits(&mut self)
        requires
            old(self).wf(),
        ensures
            final(self).source == old(self).source,
            final(self).state.start == old(self).state.start,
            final(self).state.line == old(self).state.line,
            final(self).wf(),
            final(self).state.current == spec_digit_run_end(
                old(self).src(),
                old(self).state.current as int,
            ),
    {
        let ghost s = self.src();
        let n = self.source.unicode_len();
        let mut c = self.peek();
        while is_digit_char(c)
            invariant
                self.source == old(self).source,
                self.state.start == old(self).state.start,
                self.state.line == old(self).state.line,
                self.wf(),
                n == s.len(),
                s == self.src(),
                c == if self.state.current < s.len() {
                    s[self.state.current as int]
                } else {
                    '\0'
                },
                spec_digit_run_end(s, old(self).state.current as int) == spec_digit_run_end(
                    s,
                    self.state.current as int,
                ),
            decreases s.len() - self.state.current,
        {
            let _ = self.advance();
            c = self.peek();
        }
    }

    /// Scans the rest of an identifier or keyword, the first character
    /// already consumed.
    fn scan_identifier(&mut self, tokens: &mut Vec<Token>)
        requires
            old(self).wf(),
            old(self).state.current == old(self).state.start + 1,
            old(self).state.start < old(self).src().len(),
        ensures
            final(self).source == old(self).source,
            final(self).state.start == old(self).state.start,
            final(self).state.line == old(self).state.line,
            final(self).wf(),
            ({
                let e = spec_ident_run_end(old(self).src(), old(self).state.current as int);
                &&& final(self).state.current == e
                &&& tokens_model(final(tokens)@) =~= tokens_model(old(tokens)@) + seq![
                    spec_token(
                        spec_keyword_type(
                            old(self).src().subrange(old(self).state.start as int, e),
                        ),
                        old(self).src().subrange(old(self).state.start as int, e),
                        old(self).state.line as nat,
                    ),
                ]
            }),
    {
        let ghost s = self.src();
        let n = self.source.unicode_len();
        let mut c = self.peek();
        let mut go = self.state.current < n && (char_is_alphabetic(c) || char_is_alphanumeric(c));
        while go
            invariant
                self.source == old(self).source,
                self.state.start == old(self).state.start,
                self.state.line == old(self).state.line,
                self.wf(),
                n == s.len(),
                s == self.src(),
                go == (self.state.current < s.len() && spec_ident_continue(
                    s[self.state.current as int],
                )),
                spec_ident_run_end(s, old(self).state.current as int) == spec_ident_run_end(
                    s,
                    self.state.current as int,
                ),
            decreases s.len() - self.state.current,
        {
            let _ = self.advance();
            let c2 = self.peek();
            go = self.state.current < n && (char_is_alphabetic(c2) || char_is_alphanumeric(c2));
        }
        let text = self.source.substring_char(self.state.start, self.state.current);
        let ttype = Lexer::keyword_or_identifier(text);
        tokens.push(Token::new(ttype, String::from_str(text), self.state.line));
    }

    /// The category of an alphabetic-initial run: a keyword of the fixed
    /// table, or an identifier.
    fn keyword_or_identifier(text: &str) -> (r: TokenType)
        ensures
            r@ == spec_keyword_type(text@),
    {
        if str_content_eq(text, "and") {
            TokenType::And
        } else if str_content_eq(text, "class") {
            TokenType::Class
        } else if str_content_eq(text, "else") {
            TokenType::Else
        } else if str_content_eq(text, "false") {
            TokenType::False
        } else if str_content_eq(text, "for") {
            TokenType::For
        } else if str_content_eq(text, "fun") {
            TokenType::Fun
        } else if str_content_eq(text, "if") {
            TokenType::If
        } else if str_content_eq(text, "nil") {
            TokenType::Nil
        } else if str_content_eq(text, "mut") {
            TokenType::Mut
        } else if str_content_eq(text, "or") {
            TokenType::Or
        } else if str_content_eq(text, "println") {
            TokenType::PrintLn
        } else if str_content_eq(text, "return") {
            TokenType::Return
        } else if str_content_eq(text, "super") {
            TokenType::Super
        } else if str_content_eq(text, "this") {
            TokenType::This
        } else if str_content_eq(text, "true") {
            TokenType::True
        } else if str_content_eq(text, "let") {
            TokenType::Let
        } else if str_content_eq(text, "const") {
            TokenType::Const
        } else if str_content_eq(text, "while") {
            TokenType::While
        } else {
            TokenType::Identifier
        }
    }

    /// One scanner step: reads the character under the cursor and consumes
    /// the token, comment or whitespace it begins, or reports the fault.
    fn scan_token(&mut self, tokens: &mut Vec<Token>) -> (r: Result<(), UvlError>)
        requires
            old(self).wf(),
            old(self).state.start == old(self).state.current,
            old(self).state.current < old(self).src().len(),
        ensures
            final(self).source == old(self).source,
            final(self).wf(),
            match spec_scan_token(
                old(self).src(),
                old(self).state.current as int,
                old(self).state.line as nat,
            ) {
                Ok((p2, l2, t)) => {
                    &&& r is Ok
                    &&& final(self).state.current == p2
                    &&& final(self).state.line == l2
                    &&& tokens_model(final(tokens)@) =~= tokens_model(old(tokens)@) + (match t {
                        Some(tk) => seq![tk],
                        None => Seq::empty(),
                    })
                },
                Err(e) => match r {
                    Err(er) => er@ == e && *final(tokens) == *old(tokens),
                    Ok(_) => false,
                },
            },
    {
        let ghost line0 = self.state.line as nat;
        let c = self.advance();
        if c == '(' {
            self.add_token(tokens, TokenType::LeftParen);
            Ok(())
        } else if c == ')' {
            self.add_token(tokens, TokenType::RightParen);
            Ok(())
        } else if c == '{' {
            self.add_token(tokens, TokenType::LeftBrace);
            Ok(())
        } else if c == '}' {
            self.add_token(tokens, TokenType::RightBrace);
            Ok(())
        } else if c == ',' {
            self.add_token(tokens, TokenType::Comma);
            Ok(())
        } else if c == '.' {
            self.add_token(tokens, TokenType::Dot);
            Ok(())
        } else if c == '-' {
            self.add_token(tokens, TokenType::Minus);
            Ok(())
        } else if c == '+' {
            self.add_token(tokens, TokenType::Plus);
            Ok(())
        } else if c == ';' {
            self.add_token(tokens, TokenType::Semicolon);
            Ok(())
        } else if c == '*' {
            self.add_token(tokens, TokenType::Star);
            Ok(())
        } else if c == '!' {
            let t = if self.match_next('=') {
                TokenType::BangEqual
            } else {
                TokenType::Bang
            };
            self.add_token(tokens, t);
            Ok(())
        } else if c == '=' {
            let t = if self.match_next('=') {
                TokenType::EqualEqual
            } else {
                TokenType::Equal
            };
            self.add_token(tokens, t);
            Ok(())
        } else if c == '<' {
            let t = if self.match_next('=') {
                TokenType::LessEqual
            } else {
                TokenType::Less
            };
            self.add_token(tokens, t);
            Ok(())
        } else if c == '>' {
            let t = if self.match_next('=') {
                TokenType::GreaterEqual
            } else {
                TokenType::Greater
            };
            self.add_token(tokens, t);
            Ok(())
        } else if c == '/' {
            if self.match_next('/') {
                self.skip_comment();
                Ok(())
            } else {
                self.add_token(tokens, TokenType::Slash);
                Ok(())
            }
        } else if is_digit_char(c) {
            self.scan_number(tokens);
            Ok(())
        } else if char_is_alphabetic(c) {
            self.scan_identifier(tokens);
            Ok(())
        } else if c == '"' {
            self.scan_string(tokens)
        } else if c == '\n' {
            self.state.line = self.state.line + 1;
            Ok(())
        } else if c == ' ' || c == '\r' || c == '\t' {
            Ok(())
        } else {
            let mut m = String::from_str("[line ");
            let ln = format_usize(self.state.line);
            m.append(ln.as_str());
            m.append("] Unexpected character '");
            push_char(&mut m, c);
            m.append("'");
            assert(m@ =~= spec_unexpected_char_msg(line0, c));
            Err(UvlError::LexError(m))
        }
    }

    /// Moves the cursor to the newline that ends a line comment, or to the
    /// end of input; the comment produces no token.
    fn skip_comment(&mut self)
        requires
            old(self).wf(),
        ensures
            final(self).source == old(self).source,
            final(self).state.start == old(self).state.start,
            final(self).state.line == old(self).state.line,
            final(self).wf(),
            final(self).state.current == spec_comment_end(
                old(self).src(),
                old(self).state.current as int,
            ),
    {
        let ghost s = self.src();
        let n = self.source.unicode_len();
        let mut c = self.peek();
        while c != '\n' && self.state.current < n
            invariant
                self.source == old(self).source,
                self.state.start == old(self).state.start,
                self.state.line == old(self).state.line,
                self.wf(),
                n == s.len(),
                s == self.src(),
                c == if self.state.current < s.len() {
                    s[self.state.current as int]
                } else {
                    '\0'
                },
                spec_comment_end(s, old(self).state.current as int) == spec_comment_end(
                    s,
                    self.state.current as int,
                ),
            decreases s.len() - self.state.current,
        {
            let _ = self.advance();
            c = self.peek();
        }
    }

    /// Scans the whole source: the token stream the spec-level scanner
    /// yields, terminated by the end-of-input token, or the first lexing
    /// fault (an unterminated string or an unrecognized character), reported
    /// rather than swallowed.
    pub fn scan(&mut self) -> (r: Result<Vec<Token>, UvlError>)
        requires
            old(self).state.start == 0,
            old(self).state.current == 0,
            old(self).state.line == 0,
        ensures
            final(self).source == old(self).source,
            match r {
                Ok(toks) => spec_scan(old(self).src()) == Ok::<Seq<TokenModel>, ErrorModel>(
                    tokens_model(toks@),
                ),
                Err(e) => spec_scan(old(self).src()) == Err::<Seq<TokenModel>, ErrorModel>(e@),
            },
    {
        let ghost s = self.src();
        let n = self.source.unicode_len();
        let mut tokens: Vec<Token> = Vec::new();
        proof {
            if let Ok(rest) = spec_scan_from(s, 0, 0) {
                assert(tokens_model(tokens@) + rest =~= rest);
            }
        }
        while self.state.current < n
            invariant
                self.source == old(self).source,
                s == self.src(),
                n == s.len(),
                self.wf(),
                spec_scan(s) == match spec_scan_from(
                    s,
                    self.state.current as int,
                    self.state.line as nat,
                ) {
                    Err(e) => Err::<Seq<TokenModel>, ErrorModel>(e),
                    Ok(rest) => Ok::<Seq<TokenModel>, ErrorModel>(tokens_model(tokens@) + rest),
                },
            decreases n - self.state.current,
        {
            self.state.start = self.state.current;
            let ghost pos0 = self.state.current as int;
            let ghost line0 = self.state.line as nat;
            let ghost toks0 = tokens_model(tokens@);
            proof {
                lemma_scan_token_progress(s, pos0, line0);
            }
            let step = self.scan_token(&mut tokens);
            match step {
                Err(e) => {
                    return Err(e);
                },
                Ok(_) => {
                    proof {
                        if let Ok((p2, l2, t)) = spec_scan_token(s, pos0, line0) {
                            match spec_scan_from(s, p2, l2) {
                                Err(e) => {},
                                Ok(rest) => {
                                    assert(toks0 + (match t {
                                        Some(tk) => seq![tk] + rest,
                                        None => rest,
                                    }) =~= tokens_model(tokens@) + rest);
                                },
                            }
                        }
                    }
                },
            }
        }
        let ghost toks_before = tokens@;
        tokens.push(Token::new(TokenType::Eof, String::new(), self.state.line));
        proof {
            assert(tokens_model(tokens@) =~= tokens_model(toks_before) + seq![
                spec_token(TokenTypeModel::Eof, Seq::empty(), self.state.line as nat),
            ]);
        }
        Ok(tokens)
    }
}

/// Whether two string slices hold the same characters.
fn str_content_eq(a: &str, b: &str) -> (r: bool)
    ensures
        r == (a@ == b@),
{
    let n = a.unicode_len();
    let m = b.unicode_len();
    if n != m {
        assert(a@ != b@) by {
            assert(a@.len() != b@.len());
        }
        return false;
    }
    let mut i: usize = 0;
    while i < n
        invariant
            n == a@.len(),
            n == b@.len(),
            i <= n,
            forall|j: int| 0 <= j < i ==> a@[j] == b@[j],
        decreases n - i,
    {
        if a.get_char(i) != b.get_char(i) {
            return false;
        }
        i += 1;
    }
    assert(a@ =~= b@);
    true
}

} // verus!
