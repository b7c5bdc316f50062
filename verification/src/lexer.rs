//! The lexer: turns one line of raw text into typed tokens, one token per
//! call, tracking a read cursor.  A token ends after a character `cur` when
//! the following character is whitespace or either of the two is a symbol
//! character, so maximal runs of plain characters form one token while symbol
//! characters are always isolated into single-character tokens.

use vstd::prelude::*;
use vstd::string::StrSliceExecFns;
use vstd::string::StringExecFns;

use crate::text::alpha_char;
use crate::text::string_from_chars;

verus! {

/// The closed set of token tags.
#[derive(Debug, PartialEq, Eq, Structural, Clone, Copy)]
pub enum TokenType {
    NoType,
    NumericIntLiteral,
    NumericDecLiteral,
    BoolLiteral,
    LeftBrace,
    RightBrace,
    LeftBracket,
    RightBracket,
    LeftParen,
    RightParen,
    Dot,
    Comma,
    Addition,
    Subtraction,
    Multiplication,
    Division,
    Carrot,
    Greater,
    Less,
    Assignment,
    Semicolon,
    Colon,
    Tag,
    Reference,
    Question,
    At,
    Percent,
    Bang,
    BackSlash,
    Space,
    Tab,
    Newline,
    SingleQuote,
    DoubleQuote,
    TypeNumberKeyword,
    TypeIntKeyword,
    TypeRatioKeyword,
    TypeRealKeyword,
    TypeDecKeyword,
    TypeBoolKeyword,
    TypeSqrtKeyword,
    TypeComplexKeyword,
    TypeImaginaryKeyword,
    TypeSizeKeyword,
    Identifier,
    Function,
    EndToken,
}

/// Whether a character is one of the symbol characters that always stand as
/// single-character tokens.
pub open spec fn symbol_char(c: char) -> bool {
    ||| c == '['
    ||| c == ']'
    ||| c == '{'
    ||| c == '}'
    ||| c == '('
    ||| c == ')'
    ||| c == '.'
    ||| c == ','
    ||| c == ':'
    ||| c == ';'
    ||| c == '='
    ||| c == '\''
    ||| c == '"'
    ||| c == '\\'
    ||| c == '+'
    ||| c == '-'
    ||| c == '*'
    ||| c == '/'
    ||| c == '^'
    ||| c == '>'
    ||| c == '<'
    ||| c == '~'
}

pub fn is_char_symbol(ch: char) -> (r: bool)
    ensures
        r == symbol_char(ch),
{
    match ch {
        '[' | ']' | '{' | '}' | '(' | ')' | '.' | ',' | ':' | ';' | '=' | '\'' | '"' | '\\'
            | '+' | '-' | '*' | '/' | '^' | '>' | '<' | '~' => true,
        _ => false,
    }
}

/// Whether a character is a decimal digit other than zero.
pub open spec fn nonzero_number_char(c: char) -> bool {
    ||| c == '1'
    ||| c == '2'
    ||| c == '3'
    ||| c == '4'
    ||| c == '5'
    ||| c == '6'
    ||| c == '7'
    ||| c == '8'
    ||| c == '9'
}

pub fn is_non_zero_number(ch: char) -> (r: bool)
    ensures
        r == nonzero_number_char(ch),
{
    match ch {
        '1' | '2' | '3' | '4' | '5' | '6' | '7' | '8' | '9' => true,
        _ => false,
    }
}

/// Whether a character is a decimal digit.
pub open spec fn number_char(c: char) -> bool {
    c == '0' || nonzero_number_char(c)
}

pub fn is_number(ch: char) -> (r: bool)
    ensures
        r == number_char(ch),
{
    ch == '0' || is_non_zero_number(ch)
}

/// Whether a character is whitespace for the token boundary rule.
pub open spec fn whitespace_char(c: char) -> bool {
    c == '\t' || c == ' ' || c == '\n'
}

pub fn is_char_whitespace(ch: char) -> (r: bool)
    ensures
        r == whitespace_char(ch),
{
    match ch {
        '\t' | ' ' | '\n' => true,
        _ => false,
    }
}

/// Whether every character of a text is whitespace.
pub open spec fn whitespace_text(s: Seq<char>) -> bool {
    forall|i: int| 0 <= i < s.len() ==> whitespace_char(s[i])
}

pub fn is_part_whitespace(string: &str) -> (r: bool)
    ensures
        r == whitespace_text(string@),
{
    let n = string.unicode_len();
    let mut i: usize = 0;
    while i < n
        invariant
            i <= n,
            n == string@.len(),
            forall|j: int| 0 <= j < i ==> whitespace_char(string@[j]),
        decreases n - i,
    {
        if !is_char_whitespace(string.get_char(i)) {
            return false;
        }
        i = i + 1;
    }
    true
}

/// The token boundary rule: a token ends after `cur` when `next` is
/// whitespace, or either `cur` or `next` is a symbol character.
pub open spec fn ends_token_at(cur: char, next: char) -> bool {
    whitespace_char(next) || symbol_char(cur) || symbol_char(next)
}

pub fn ends_token(cur: char, next: char) -> (r: bool)
    ensures
        r == ends_token_at(cur, next),
{
    if is_char_whitespace(next) {
        return true;
    }
    if is_char_symbol(cur) || is_char_symbol(next) {
        return true;
    }
    false
}

/// The integer-literal grammar: `0` alone, or one non-zero digit or a
/// leading `-` followed by zero or more digits.
pub open spec fn int_literal_text(s: Seq<char>) -> bool {
    ||| (s.len() == 1 && s[0] == '0')
    ||| (s.len() >= 1 && (nonzero_number_char(s[0]) || s[0] == '-') && (forall|i: int|
        1 <= i < s.len() ==> number_char(s[i])))
}

pub fn is_part_int_numeric(part: &str) -> (r: bool)
    requires
        part@.len() > 0,
    ensures
        r == int_literal_text(part@),
{
    let n = part.unicode_len();
    let first = part.get_char(0);
    if n == 1 && first == '0' {
        return true;
    }
    if !(is_non_zero_number(first) || first == '-') {
        return false;
    }
    let mut i: usize = 1;
    while i < n
        invariant
            1 <= i <= n,
            n == part@.len(),
            forall|j: int| 1 <= j < i ==> number_char(part@[j]),
        decreases n - i,
    {
        if !is_number(part.get_char(i)) {
            return false;
        }
        i = i + 1;
    }
    true
}

/// Whether every character of a text is alphabetic.
pub open spec fn alpha_text(s: Seq<char>) -> bool {
    forall|i: int| 0 <= i < s.len() ==> alpha_char(s[i])
}

pub fn is_part_alpha(part: &str) -> (r: bool)
    ensures
        r == alpha_text(part@),
{
    let n = part.unicode_len();
    let mut i: usize = 0;
    while i < n
        invariant
            i <= n,
            n == part@.len(),
            forall|j: int| 0 <= j < i ==> alpha_char(part@[j]),
        decreases n - i,
    {
        if !part.get_char(i).is_alphabetic() {
            return false;
        }
        i = i + 1;
    }
    true
}

/// The tag a single symbol or whitespace character stands for, `NoType` for
/// every other character.
pub open spec fn single_char_kind(c: char) -> TokenType {
    if c == '{' {
        TokenType::LeftBrace
    } else if c == '}' {
        TokenType::RightBrace
    } else if c == '[' {
        TokenType::LeftBracket
    } else if c == ']' {
        TokenType::RightBracket
    } else if c == '(' {
        TokenType::LeftParen
    } else if c == ')' {
        TokenType::RightParen
    } else if c == '.' {
        TokenType::Dot
    } else if c == ',' {
        TokenType::Comma
    } else if c == '+' {
        TokenType::Addition
    } else if c == '-' {
        TokenType::Subtraction
    } else if c == '*' {
        TokenType::Multiplication
    } else if c == '/' {
        TokenType::Division
    } else if c == '^' {
        TokenType::Carrot
    } else if c == '>' {
        TokenType::Greater
    } else if c == '<' {
        TokenType::Less
    } else if c == '=' {
        TokenType::Assignment
    } else if c == ';' {
        TokenType::Semicolon
    } else if c == ':' {
        TokenType::Colon
    } else if c == '#' {
        TokenType::Tag
    } else if c == '&' {
        TokenType::Reference
    } else if c == '?' {
        TokenType::Question
    } else if c == '@' {
        TokenType::At
    } else if c == '%' {
        TokenType::Percent
    } else if c == '!' {
        TokenType::Bang
    } else if c == '\\' {
        TokenType::BackSlash
    } else if c == ' ' {
        TokenType::Space
    } else if c == '\t' {
        TokenType::Tab
    } else if c == '\n' {
        TokenType::Newline
    } else if c == '\'' {
        TokenType::SingleQuote
    } else if c == '"' {
        TokenType::DoubleQuote
    } else {
        TokenType::NoType
    }
}

fn single_char_type(c: char) -> (k: TokenType)
    ensures
        k == single_char_kind(c),
{
    match c {
        '{' => TokenType::LeftBrace,
        '}' => TokenType::RightBrace,
        '[' => TokenType::LeftBracket,
        ']' => TokenType::RightBracket,
        '(' => TokenType::LeftParen,
        ')' => TokenType::RightParen,
        '.' => TokenType::Dot,
        ',' => TokenType::Comma,
        '+' => TokenType::Addition,
        '-' => TokenType::Subtraction,
        '*' => TokenType::Multiplication,
        '/' => TokenType::Division,
        '^' => TokenType::Carrot,
        '>' => TokenType::Greater,
        '<' => TokenType::Less,
        '=' => TokenType::Assignment,
        ';' => TokenType::Semicolon,
        ':' => TokenType::Colon,
        '#' => TokenType::Tag,
        '&' => TokenType::Reference,
        '?' => TokenType::Question,
        '@' => TokenType::At,
        '%' => TokenType::Percent,
        '!' => TokenType::Bang,
        '\\' => TokenType::BackSlash,
        ' ' => TokenType::Space,
        '\t' => TokenType::Tab,
        '\n' => TokenType::Newline,
        '\'' => TokenType::SingleQuote,
        '"' => TokenType::DoubleQuote,
        _ => TokenType::NoType,
    }
}

/// The tag of a reserved type-keyword string, `NoType` for any other text.
pub open spec fn keyword_kind(s: Seq<char>) -> TokenType {
    if s == "number"@ {
        TokenType::TypeNumberKeyword
    } else if s == "int"@ {
        TokenType::TypeIntKeyword
    } else if s == "ratio"@ {
        TokenType::TypeRatioKeyword
    } else if s == "real"@ {
        TokenType::TypeRealKeyword
    } else if s == "dec"@ {
        TokenType::TypeDecKeyword
    } else if s == "bool"@ {
        TokenType::TypeBoolKeyword
    } else if s == "sqrt"@ {
        TokenType::TypeSqrtKeyword
    } else if s == "complex"@ {
        TokenType::TypeComplexKeyword
    } else if s == "imaginary"@ {
        TokenType::TypeImaginaryKeyword
    } else if s == "size"@ {
        TokenType::TypeSizeKeyword
    } else {
        TokenType::NoType
    }
}

pub fn is_type(maybe_type: &str) -> (k: TokenType)
    ensures
        k == keyword_kind(maybe_type@),
{
    let s: String = maybe_type.to_owned();
    if s == String::from_str("number") {
        TokenType::TypeNumberKeyword
    } else if s == String::from_str("int") {
        TokenType::TypeIntKeyword
    } else if s == String::from_str("ratio") {
        TokenType::TypeRatioKeyword
    } else if s == String::from_str("real") {
        TokenType::TypeRealKeyword
    } else if s == String::from_str("dec") {
        TokenType::TypeDecKeyword
    } else if s == String::from_str("bool") {
        TokenType::TypeBoolKeyword
    } else if s == String::from_str("sqrt") {
        TokenType::TypeSqrtKeyword
    } else if s == String::from_str("complex") {
        TokenType::TypeComplexKeyword
    } else if s == String::from_str("imaginary") {
        TokenType::TypeImaginaryKeyword
    } else if s == String::from_str("size") {
        TokenType::TypeSizeKeyword
    } else {
        TokenType::NoType
    }
}

/// The abstract value of a token: its tag and the characters of its text.
pub ghost struct TokenV {
    pub kind: TokenType,
    pub text: Seq<char>,
}

/// The abstract value of the empty `NoType` token.
pub open spec fn blank_token() -> TokenV {
    TokenV { kind: TokenType::NoType, text: Seq::empty() }
}

/// The abstract value of the end-of-line token.
pub open spec fn end_token() -> TokenV {
    TokenV { kind: TokenType::EndToken, text: Seq::empty() }
}

/// A token: a tag and the literal text it was read from (or, for computed
/// tokens, the canonical text of the computed value).
#[derive(Debug, Clone)]
pub struct Token {
    pub token_type: TokenType,
    pub value: String,
}

impl View for Token {
    type V = TokenV;

    open spec fn view(&self) -> TokenV {
        TokenV { kind: self.token_type, text: self.value@ }
    }
}

impl DeepView for Token {
    type V = TokenV;

    open spec fn deep_view(&self) -> TokenV {
        self@
    }
}

impl PartialEq for Token {
    fn eq(&self, other: &Token) -> (r: bool) {
        self.token_type == other.token_type && self.value == other.value
    }
}

impl vstd::std_specs::cmp::PartialEqSpecImpl for Token {
    open spec fn obeys_eq_spec() -> bool {
        true
    }

    open spec fn eq_spec(&self, other: &Token) -> bool {
        self@ == other@
    }
}

impl Token {
    /// An identical copy of the token.
    pub fn dup(&self) -> (t: Token)
        ensures
            t@ == self@,
    {
        Token { token_type: self.token_type, value: self.value.clone() }
    }
}

/// The classification of an assembled token text: the single-character table
/// first, then the integer-literal grammar, then the reserved keywords, then
/// identifiers; `NoType` if nothing fits.
pub open spec fn classify(s: Seq<char>) -> TokenType {
    if s.len() == 1 && single_char_kind(s[0]) != TokenType::NoType {
        single_char_kind(s[0])
    } else if int_literal_text(s) {
        TokenType::NumericIntLiteral
    } else if keyword_kind(s) != TokenType::NoType {
        keyword_kind(s)
    } else if alpha_text(s) {
        TokenType::Identifier
    } else {
        TokenType::NoType
    }
}

pub trait TokenTrait: View<V = TokenV> + Sized {
    /// The empty `NoType` token.
    fn default() -> (t: Self)
        ensures
            t@ == blank_token(),
    ;

    /// Classifies an assembled token text.
    fn tokenize(tokens: String) -> (t: Self)
        requires
            tokens@.len() > 0,
        ensures
            t@.kind == classify(tokens@),
            t@.text == tokens@,
    ;

    /// Builds and classifies a token from collected characters.
    fn from_chars(chars: Vec<char>) -> (t: Self)
        requires
            chars@.len() > 0,
        ensures
            t@.kind == classify(chars@),
            t@.text == chars@,
    ;
}

impl TokenTrait for Token {
    fn default() -> (t: Self) {
        Token { token_type: TokenType::NoType, value: String::new() }
    }

    fn tokenize(tokens: String) -> (t: Self) {
        let n = tokens.as_str().unicode_len();
        if n == 1 {
            let kind = single_char_type(tokens.as_str().get_char(0));
            if !matches!(kind, TokenType::NoType) {
                return Token { token_type: kind, value: tokens };
            }
        }
        if is_part_int_numeric(tokens.as_str()) {
            return Token { token_type: TokenType::NumericIntLiteral, value: tokens };
        }
        let keyword = is_type(tokens.as_str());
        if !matches!(keyword, TokenType::NoType) {
            return Token { token_type: keyword, value: tokens };
        }
        if is_part_alpha(tokens.as_str()) {
            return Token { token_type: TokenType::Identifier, value: tokens };
        }
        Token { token_type: TokenType::NoType, value: tokens }
    }

    fn from_chars(chars: Vec<char>) -> (t: Self) {
        let string: String = string_from_chars(chars);
        Token::tokenize(string)
    }
}

/// The abstract value of a lexer: the line and column cursors, the character
/// contents of the lines, and the remembered previous token.
pub ghost struct LexerV {
    pub line_index: int,
    pub column_index: int,
    pub lines: Seq<Seq<char>>,
    pub prev: TokenV,
}

pub struct Lexer {
    pub line_index: usize,
    pub column_index: usize,
    pub lines: Vec<String>,
    pub prev_token: Token,
}

impl View for Lexer {
    type V = LexerV;

    open spec fn view(&self) -> LexerV {
        LexerV {
            line_index: self.line_index as int,
            column_index: self.column_index as int,
            lines: self.lines.deep_view(),
            prev: self.prev_token@,
        }
    }
}

/// The first position at or after `i` holding a non-whitespace character.
pub open spec fn first_nonws(s: Seq<char>, i: int) -> int
    decreases s.len() - i,
    when 0 <= i <= s.len()
{
    if i >= s.len() {
        i
    } else if whitespace_char(s[i]) {
        first_nonws(s, i + 1)
    } else {
        i
    }
}

/// The position of the last character of the token that starts at `i`: the
/// first position `p` at or after `i` where the boundary rule ends the token
/// between `p` and `p + 1`.
pub open spec fn token_end(s: Seq<char>, i: int) -> int
    decreases s.len() - i,
    when 0 <= i < s.len()
{
    if i + 1 >= s.len() {
        i
    } else if ends_token_at(s[i], s[i + 1]) {
        i
    } else {
        token_end(s, i + 1)
    }
}

/// Whether any non-whitespace character stands at or after column `col`.
pub open spec fn more_on_line(s: Seq<char>, col: int) -> bool {
    exists|j: int| col <= j < s.len() && !whitespace_char(s[j])
}

/// What one `next` call does.  The line under scan gains one trailing space;
/// if only whitespace remains the end-of-line token comes back and the column
/// stays put; otherwise the token text runs from the first non-whitespace
/// character to the boundary found by `token_end`, the token is classified,
/// and the column moves past it.
pub open spec fn lex_next_relates(pre: LexerV, post: LexerV, t: TokenV) -> bool {
    let ext = pre.lines[pre.line_index].push(' ');
    let lines2 = pre.lines.update(pre.line_index, ext);
    if !more_on_line(ext, pre.column_index) {
        &&& post == (LexerV { lines: lines2, ..pre })
        &&& t == end_token()
    } else {
        let start = first_nonws(ext, pre.column_index);
        let stop = token_end(ext, start);
        &&& post == (LexerV { lines: lines2, column_index: stop + 1, ..pre })
        &&& t.text == ext.subrange(start, stop + 1)
        &&& t.kind == classify(ext.subrange(start, stop + 1))
    }
}

pub trait Lex: View<V = LexerV> + Sized {
    /// A lexer over the given lines, its cursors at the start.
    fn new(lines: Vec<String>) -> (l: Self)
        ensures
            l@ == (LexerV {
                line_index: 0,
                column_index: 0,
                lines: lines.deep_view(),
                prev: blank_token(),
            }),
    ;

    /// The next token of the line under scan, or the end-of-line token.
    fn next(&mut self) -> (t: Token)
        requires
            0 <= old(self)@.line_index < old(self)@.lines.len(),
        ensures
            lex_next_relates(old(self)@, final(self)@, t@),
    ;

    /// The remembered previous token.  Nothing updates it yet, so this is
    /// the empty token.
    fn prev(&mut self) -> (t: Token)
        ensures
            final(self)@ == old(self)@,
            t@ == old(self)@.prev,
    ;

    /// A placeholder for one-token lookahead; hands back the empty token.
    fn peak(&mut self) -> (t: Token)
        ensures
            final(self)@ == old(self)@,
            t@ == blank_token(),
    ;

    /// A placeholder for one-token lookback; hands back the empty token.
    fn lookback(&mut self) -> (t: Token)
        ensures
            final(self)@ == old(self)@,
            t@ == blank_token(),
    ;

    /// Rewinds the column cursor so the same line can be scanned again.
    fn reset_line(&mut self)
        ensures
            final(self)@ == (LexerV { column_index: 0, ..old(self)@ }),
    ;
}

impl Lex for Lexer {
    fn new(lines: Vec<String>) -> (l: Self) {
        Lexer {
            line_index: 0,
            column_index: 0,
            lines,
            prev_token: Token::default(),
        }
    }

    fn prev(&mut self) -> (t: Token) {
        self.prev_token.dup()
    }

    fn next(&mut self) -> (t: Token) {
        let ghost pre = self@;
        let idx = self.line_index;

        // Append one trailing space so a token ending exactly at end-of-line
        // still meets the boundary rule (it needs a following character).
        let line = self.lines[idx].clone();
        let line = line.concat(" ");
        self.lines[idx] = line;
        proof {
            reveal_strlit(" ");
            assert(" "@ =~= seq![' ']);
            assert(self.lines.deep_view() =~~= pre.lines.update(
                idx as int,
                pre.lines[idx as int].push(' '),
            ));
        }
        let ghost ext = self.lines.deep_view()[idx as int];
        let n = vec_str_len(&self.lines, idx);

        // Skip whitespace before the token.
        let mut i = self.column_index;
        if i >= n {
            let mut token = Token::default();
            token.token_type = TokenType::EndToken;
            return token;
        }
        while i < n && is_char_whitespace(vec_str_char(&self.lines, idx, i))
            invariant
                n == ext.len(),
                idx < self.lines@.len(),
                ext == self.lines.deep_view()[idx as int],
                0 <= pre.column_index <= i as int,
                forall|j: int| pre.column_index <= j < i as int ==> whitespace_char(ext[j]),
                first_nonws(ext, pre.column_index) == first_nonws(ext, i as int),
                i as int <= ext.len(),
            decreases n - i,
        {
            i = i + 1;
            proof {
                assert(first_nonws(ext, i - 1) == first_nonws(ext, i as int));
            }
        }
        if i >= n {
            proof {
                assert(!more_on_line(ext, pre.column_index));
            }
            let mut token = Token::default();
            token.token_type = TokenType::EndToken;
            return token;
        }
        proof {
            assert(more_on_line(ext, pre.column_index));
            assert(first_nonws(ext, pre.column_index) == i as int);
        }

        // Find where the token ends.  The appended space guarantees a
        // boundary at the second-to-last position at the latest.
        let ghost start = i as int;
        proof {
            assert(ext[ext.len() - 1] == ' ');
            assert(start <= ext.len() - 2) by {
                assert(!whitespace_char(ext[start]));
            }
            assert(ends_token_at(ext[ext.len() - 2], ext[ext.len() - 1]));
        }
        let mut q = i;
        while !ends_token(vec_str_char(&self.lines, idx, q), vec_str_char(&self.lines, idx, q + 1))
            invariant
                n == ext.len(),
                idx < self.lines@.len(),
                ext == self.lines.deep_view()[idx as int],
                0 <= start <= q as int <= ext.len() - 2,
                ends_token_at(ext[ext.len() - 2], ext.last()),
                token_end(ext, start) == token_end(ext, q as int),
            decreases n - q,
        {
            q = q + 1;
            proof {
                assert(token_end(ext, q - 1) == token_end(ext, q as int));
            }
        }
        proof {
            assert(token_end(ext, start) == q as int);
        }

        // Collect the token's characters and classify them.
        let mut buf: Vec<char> = Vec::new();
        let mut p = i;
        while p <= q
            invariant
                n == ext.len(),
                idx < self.lines@.len(),
                ext == self.lines.deep_view()[idx as int],
                0 <= start <= p as int <= q + 1,
                q as int <= ext.len() - 2,
                buf@ =~= ext.subrange(start, p as int),
            decreases q + 1 - p,
        {
            buf.push(vec_str_char(&self.lines, idx, p));
            p = p + 1;
            proof {
                assert(buf@ =~= ext.subrange(start, p as int));
            }
        }
        proof {
            assert(buf@ =~= ext.subrange(start, q as int + 1));
        }
        self.column_index = q + 1;
        Token::from_chars(buf)
    }

    fn reset_line(&mut self) {
        self.column_index = 0;
    }

    fn peak(&mut self) -> (t: Token) {
        Token::default()
    }

    fn lookback(&mut self) -> (t: Token) {
        Token::default()
    }
}

/// The character count of one line of the vector.
fn vec_str_len(lines: &Vec<String>, idx: usize) -> (n: usize)
    requires
        idx < lines@.len(),
    ensures
        n == lines.deep_view()[idx as int].len(),
{
    lines[idx].as_str().unicode_len()
}

/// One character of one line of the vector.
fn vec_str_char(lines: &Vec<String>, idx: usize, i: usize) -> (c: char)
    requires
        idx < lines@.len(),
        i < lines.deep_view()[idx as int].len(),
    ensures
        c == lines.deep_view()[idx as int][i as int],
{
    lines[idx].as_str().get_char(i)
}

} // verus!
