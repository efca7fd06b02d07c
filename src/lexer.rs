use vstd::prelude::*;
use vstd::utf8::*;
use vstd::string::StringExecFns;
use vstd::string::StrSliceExecFns;
use vstd::std_specs::iter::IteratorSpec;

verus! {

broadcast use vstd::string::group_string_axioms;

#[derive(Clone, Copy, Debug, PartialEq, Eq, Structural)]
pub enum Token {
    Fn,
    Let,
    If,
    Else,
    While,
    For,
    Return,
    Struct,
    Enum,
    Match,
    Import,
    True,
    False,
    Null,
    Plus,
    Minus,
    Star,
    Slash,
    Percent,
    Assign,
    Equal,
    NotEqual,
    Less,
    LessEqual,
    Greater,
    GreaterEqual,
    And,
    Or,
    Not,
    LeftParen,
    RightParen,
    LeftBrace,
    RightBrace,
    LeftBracket,
    RightBracket,
    Semicolon,
    Comma,
    Dot,
    Colon,
    Arrow,
    Identifier,
    IntLiteral,
    FloatLiteral,
    StringLiteral,
    Comment,
    MultiLineComment,
    Whitespace,
    Error,
}

impl Token {
    /// A short human-readable name of the token kind.
    pub fn describe(&self) -> &'static str {
        match self {
            Token::Fn => "'fn'",
            Token::Let => "'let'",
            Token::If => "'if'",
            Token::Else => "'else'",
            Token::While => "'while'",
            Token::For => "'for'",
            Token::Return => "'return'",
            Token::Struct => "'struct'",
            Token::Enum => "'enum'",
            Token::Match => "'match'",
            Token::Import => "'import'",
            Token::True => "'true'",
            Token::False => "'false'",
            Token::Null => "'null'",
            Token::Plus => "'+'",
            Token::Minus => "'-'",
            Token::Star => "'*'",
            Token::Slash => "'/'",
            Token::Percent => "'%'",
            Token::Assign => "'='",
            Token::Equal => "'=='",
            Token::NotEqual => "'!='",
            Token::Less => "'<'",
            Token::LessEqual => "'<='",
            Token::Greater => "'>'",
            Token::GreaterEqual => "'>='",
            Token::And => "'&&'",
            Token::Or => "'||'",
            Token::Not => "'!'",
            Token::LeftParen => "'('",
            Token::RightParen => "')'",
            Token::LeftBrace => "'{'",
            Token::RightBrace => "'}'",
            Token::LeftBracket => "'['",
            Token::RightBracket => "']'",
            Token::Semicolon => "';'",
            Token::Comma => "','",
            Token::Dot => "'.'",
            Token::Colon => "':'",
            Token::Arrow => "'->'",
            Token::Identifier => "identifier",
            Token::IntLiteral => "integer literal",
            Token::FloatLiteral => "float literal",
            Token::StringLiteral => "string literal",
            Token::Comment => "comment",
            Token::MultiLineComment => "comment",
            Token::Whitespace => "whitespace",
            Token::Error => "invalid token",
        }
    }
}

/// A token with its byte range in the source and its text.
#[derive(Debug)]
pub struct Span {
    pub token: Token,
    pub span: std::ops::Range<usize>,
    pub text: String,
}

/// The model of a token: kind, text and byte range.
pub struct TokenV {
    pub token: Token,
    pub text: Seq<char>,
    pub start: usize,
    pub end: usize,
}

impl View for Span {
    type V = TokenV;

    open spec fn view(&self) -> TokenV {
        TokenV { token: self.token, text: self.text@, start: self.span.start, end: self.span.end }
    }
}

pub open spec fn tokens_view(v: Seq<Span>) -> Seq<TokenV> {
    v.map_values(|x: Span| x@)
}

#[derive(Debug)]
pub struct LexerError {
    pub message: String,
    pub span: std::ops::Range<usize>,
}

impl LexerError {
    pub fn to_string(&self) -> (r: String)
        ensures
            r@ == "Lexer error at position "@ + crate::codegen::nat_text(self.span.start as nat) + ": "@
                + self.message@,
    {
        let mut out = "Lexer error at position ".to_string();
        out.append(crate::codegen::uint_to_text(self.span.start as u64).as_str());
        out.append(": ");
        out.append(self.message.as_str());
        out
    }
}

/// A token of the model: its kind and its range of character positions.
pub struct Tok {
    pub kind: Token,
    pub start: int,
    pub end: int,
}

pub open spec fn is_ws(c: char) -> bool {
    c == ' ' || c == '\t' || c == '\n' || c == '\r'
}

pub open spec fn is_alpha(c: char) -> bool {
    ('a' <= c && c <= 'z') || ('A' <= c && c <= 'Z') || c == '_'
}

pub open spec fn is_digit(c: char) -> bool {
    '0' <= c && c <= '9'
}

pub open spec fn is_alnum(c: char) -> bool {
    is_alpha(c) || is_digit(c)
}

/// The end of the run of whitespace that starts at `i`.
pub open spec fn ws_end(s: Seq<char>, i: int) -> int
    decreases s.len() - i,
{
    if 0 <= i < s.len() && is_ws(s[i]) {
        ws_end(s, i + 1)
    } else {
        i
    }
}

/// The end of the run of letters, digits and underscores that starts at `i`.
pub open spec fn ident_end(s: Seq<char>, i: int) -> int
    decreases s.len() - i,
{
    if 0 <= i < s.len() && is_alnum(s[i]) {
        ident_end(s, i + 1)
    } else {
        i
    }
}

/// The end of the run of digits that starts at `i`.
pub open spec fn digits_end(s: Seq<char>, i: int) -> int
    decreases s.len() - i,
{
    if 0 <= i < s.len() && is_digit(s[i]) {
        digits_end(s, i + 1)
    } else {
        i
    }
}

/// The position of the first line break at or after `i`, or the end of the text.
pub open spec fn line_end(s: Seq<char>, i: int) -> int
    decreases s.len() - i,
{
    if 0 <= i < s.len() && s[i] != '\n' {
        line_end(s, i + 1)
    } else {
        i
    }
}

/// The position just after the first `*/` at or after `i`.
pub open spec fn block_comment_end(s: Seq<char>, i: int) -> Option<int>
    decreases s.len() - i,
{
    if i < 0 || i + 1 >= s.len() {
        None
    } else if s[i] == '*' && s[i + 1] == '/' {
        Some(i + 2)
    } else {
        block_comment_end(s, i + 1)
    }
}

/// The position just after the closing quote of a string literal whose body
/// starts at `i`; a backslash escapes the character after it.
pub open spec fn string_end(s: Seq<char>, i: int) -> Option<int>
    decreases s.len() - i,
{
    if i < 0 || i >= s.len() {
        None
    } else if s[i] == '"' {
        Some(i + 1)
    } else if s[i] == '\\' {
        if i + 1 < s.len() {
            string_end(s, i + 2)
        } else {
            None
        }
    } else {
        string_end(s, i + 1)
    }
}

pub open spec fn keyword(w: Seq<char>) -> Option<Token> {
    if w == "fn"@ {
        Some(Token::Fn)
    } else if w == "let"@ {
        Some(Token::Let)
    } else if w == "if"@ {
        Some(Token::If)
    } else if w == "else"@ {
        Some(Token::Else)
    } else if w == "while"@ {
        Some(Token::While)
    } else if w == "for"@ {
        Some(Token::For)
    } else if w == "return"@ {
        Some(Token::Return)
    } else if w == "struct"@ {
        Some(Token::Struct)
    } else if w == "enum"@ {
        Some(Token::Enum)
    } else if w == "match"@ {
        Some(Token::Match)
    } else if w == "import"@ {
        Some(Token::Import)
    } else if w == "true"@ {
        Some(Token::True)
    } else if w == "false"@ {
        Some(Token::False)
    } else if w == "null"@ {
        Some(Token::Null)
    } else {
        None
    }
}

pub open spec fn two_char_op(a: char, b: char) -> Option<Token> {
    if a == '=' && b == '=' {
        Some(Token::Equal)
    } else if a == '!' && b == '=' {
        Some(Token::NotEqual)
    } else if a == '<' && b == '=' {
        Some(Token::LessEqual)
    } else if a == '>' && b == '=' {
        Some(Token::GreaterEqual)
    } else if a == '&' && b == '&' {
        Some(Token::And)
    } else if a == '|' && b == '|' {
        Some(Token::Or)
    } else if a == '-' && b == '>' {
        Some(Token::Arrow)
    } else {
        None
    }
}

pub open spec fn one_char_op(c: char) -> Option<Token> {
    if c == '+' {
        Some(Token::Plus)
    } else if c == '-' {
        Some(Token::Minus)
    } else if c == '*' {
        Some(Token::Star)
    } else if c == '/' {
        Some(Token::Slash)
    } else if c == '%' {
        Some(Token::Percent)
    } else if c == '=' {
        Some(Token::Assign)
    } else if c == '<' {
        Some(Token::Less)
    } else if c == '>' {
        Some(Token::Greater)
    } else if c == '!' {
        Some(Token::Not)
    } else if c == '(' {
        Some(Token::LeftParen)
    } else if c == ')' {
        Some(Token::RightParen)
    } else if c == '{' {
        Some(Token::LeftBrace)
    } else if c == '}' {
        Some(Token::RightBrace)
    } else if c == '[' {
        Some(Token::LeftBracket)
    } else if c == ']' {
        Some(Token::RightBracket)
    } else if c == ';' {
        Some(Token::Semicolon)
    } else if c == ',' {
        Some(Token::Comma)
    } else if c == '.' {
        Some(Token::Dot)
    } else if c == ':' {
        Some(Token::Colon)
    } else {
        None
    }
}

/// What the scanner finds at a position: material to discard up to a
/// position, a token ending at a position, or an unrecognized lexeme ending
/// at a position.
pub enum Step {
    Skip(int),
    Token(Token, int),
    Fail(int),
}

/// The longest match at position `i` (which is inside the text).
pub open spec fn scan(s: Seq<char>, i: int) -> Step {
    let c = s[i];
    let has_next = i + 1 < s.len();
    if is_ws(c) {
        Step::Skip(ws_end(s, i))
    } else if c == '/' && has_next && s[i + 1] == '/' {
        Step::Skip(line_end(s, i + 2))
    } else if c == '/' && has_next && s[i + 1] == '*' {
        match block_comment_end(s, i + 2) {
            Some(j) => Step::Skip(j),
            None => Step::Fail(i + 2),
        }
    } else if is_alpha(c) {
        let j = ident_end(s, i);
        match keyword(s.subrange(i, j)) {
            Some(k) => Step::Token(k, j),
            None => Step::Token(Token::Identifier, j),
        }
    } else if is_digit(c) {
        let j = digits_end(s, i);
        if j + 1 < s.len() && s[j] == '.' && is_digit(s[j + 1]) {
            Step::Token(Token::FloatLiteral, digits_end(s, j + 1))
        } else {
            Step::Token(Token::IntLiteral, j)
        }
    } else if c == '"' {
        match string_end(s, i + 1) {
            Some(j) => Step::Token(Token::StringLiteral, j),
            None => Step::Fail(i + 1),
        }
    } else if has_next && two_char_op(c, s[i + 1]) is Some {
        Step::Token(two_char_op(c, s[i + 1])->0, i + 2)
    } else if one_char_op(c) is Some {
        Step::Token(one_char_op(c)->0, i + 1)
    } else {
        Step::Fail(i + 1)
    }
}

pub open spec fn step_end(st: Step) -> int {
    match st {
        Step::Skip(j) => j,
        Step::Token(_, j) => j,
        Step::Fail(j) => j,
    }
}

pub open spec fn prepend(t: Tok, r: Result<Seq<Tok>, (int, int)>) -> Result<Seq<Tok>, (int, int)> {
    match r {
        Ok(ts) => Ok(seq![t] + ts),
        Err(e) => Err(e),
    }
}

/// The tokens of `s` from position `i` on, or the character range of the
/// first lexeme that no token matches.
pub open spec fn lex_from(s: Seq<char>, i: int) -> Result<Seq<Tok>, (int, int)>
    decreases s.len() - i,
    via lex_from_decreases
{
    if i < 0 || i >= s.len() {
        Ok(Seq::empty())
    } else {
        match scan(s, i) {
            Step::Skip(j) => lex_from(s, j),
            Step::Token(k, j) => prepend(Tok { kind: k, start: i, end: j }, lex_from(s, j)),
            Step::Fail(j) => Err((i, j)),
        }
    }
}

pub open spec fn lex_spec(s: Seq<char>) -> Result<Seq<Tok>, (int, int)> {
    lex_from(s, 0)
}

proof fn lemma_ws_end(s: Seq<char>, i: int)
    requires
        0 <= i <= s.len(),
    ensures
        i <= ws_end(s, i) <= s.len(),
        forall|k: int| i <= k < ws_end(s, i) ==> is_ws(#[trigger] s[k]),
    decreases s.len() - i,
{
    if i < s.len() && is_ws(s[i]) {
        lemma_ws_end(s, i + 1);
    }
}

proof fn lemma_ident_end(s: Seq<char>, i: int)
    requires
        0 <= i <= s.len(),
    ensures
        i <= ident_end(s, i) <= s.len(),
        forall|k: int| i <= k < ident_end(s, i) ==> is_alnum(#[trigger] s[k]),
    decreases s.len() - i,
{
    if i < s.len() && is_alnum(s[i]) {
        lemma_ident_end(s, i + 1);
    }
}

proof fn lemma_digits_end(s: Seq<char>, i: int)
    requires
        0 <= i <= s.len(),
    ensures
        i <= digits_end(s, i) <= s.len(),
        forall|k: int| i <= k < digits_end(s, i) ==> is_digit(#[trigger] s[k]),
    decreases s.len() - i,
{
    if i < s.len() && is_digit(s[i]) {
        lemma_digits_end(s, i + 1);
    }
}

proof fn lemma_line_end(s: Seq<char>, i: int)
    requires
        0 <= i <= s.len(),
    ensures
        i <= line_end(s, i) <= s.len(),
        forall|k: int| i <= k < line_end(s, i) ==> #[trigger] s[k] != '\n',
    decreases s.len() - i,
{
    if i < s.len() && s[i] != '\n' {
        lemma_line_end(s, i + 1);
    }
}

proof fn lemma_block_comment_end(s: Seq<char>, i: int)
    requires
        0 <= i,
    ensures
        block_comment_end(s, i) is Some ==> i + 2 <= block_comment_end(s, i)->0 <= s.len(),
    decreases s.len() - i,
{
    if i + 1 < s.len() && !(s[i] == '*' && s[i + 1] == '/') {
        lemma_block_comment_end(s, i + 1);
    }
}

proof fn lemma_string_end(s: Seq<char>, i: int)
    requires
        0 <= i,
    ensures
        string_end(s, i) is Some ==> i + 1 <= string_end(s, i)->0 <= s.len(),
    decreases s.len() - i,
{
    if i < s.len() && s[i] != '"' {
        if s[i] == '\\' {
            if i + 1 < s.len() {
                lemma_string_end(s, i + 2);
            }
        } else {
            lemma_string_end(s, i + 1);
        }
    }
}

/// Each scan moves past the position where it starts and stays in the text.
pub proof fn lemma_scan_advances(s: Seq<char>, i: int)
    requires
        0 <= i < s.len(),
    ensures
        i < step_end(scan(s, i)) <= s.len(),
{
    lemma_ws_end(s, i + 1);
    lemma_ident_end(s, i + 1);
    lemma_digits_end(s, i + 1);
    if i + 2 <= s.len() {
        lemma_line_end(s, i + 2);
    }
    lemma_block_comment_end(s, i + 2);
    lemma_string_end(s, i + 1);
    let j = digits_end(s, i);
    if j + 1 < s.len() {
        lemma_digits_end(s, j + 1);
    }
}

#[via_fn]
proof fn lex_from_decreases(s: Seq<char>, i: int) {
    if 0 <= i < s.len() {
        lemma_scan_advances(s, i);
    }
}

/// The characters from `a` to `b` are discarded material: from `a` on, the
/// scanner skips whitespace and comments until it stands exactly at `b`.
pub open spec fn skipped(s: Seq<char>, a: int, b: int) -> bool
    decreases b - a,
{
    if a == b {
        true
    } else if 0 <= a < b <= s.len() {
        match scan(s, a) {
            Step::Skip(j) => a < j <= b && skipped(s, j, b),
            _ => false,
        }
    } else {
        false
    }
}

/// The text rebuilt from position `from` on: each gap before a token, then
/// the token's own slice, and at last the tail after the last token.
pub open spec fn rebuild(s: Seq<char>, ts: Seq<Tok>, from: int) -> Seq<char>
    decreases ts.len(),
{
    if ts.len() == 0 {
        s.subrange(from, s.len() as int)
    } else {
        s.subrange(from, ts[0].start) + s.subrange(ts[0].start, ts[0].end) + rebuild(
            s,
            ts.drop_first(),
            ts[0].end,
        )
    }
}

/// Every gap between tokens (and before the first and after the last) is
/// discarded material, and every token is non-empty.
pub open spec fn gaps_skipped(s: Seq<char>, ts: Seq<Tok>, from: int) -> bool
    decreases ts.len(),
{
    if ts.len() == 0 {
        skipped(s, from, s.len() as int)
    } else {
        &&& skipped(s, from, ts[0].start)
        &&& ts[0].start < ts[0].end
        &&& gaps_skipped(s, ts.drop_first(), ts[0].end)
    }
}

proof fn lemma_lex_from_lossless(s: Seq<char>, i: int)
    requires
        0 <= i <= s.len(),
        lex_from(s, i) is Ok,
    ensures
        rebuild(s, lex_from(s, i)->Ok_0, i) == s.subrange(i, s.len() as int),
        gaps_skipped(s, lex_from(s, i)->Ok_0, i),
        forall|k: int|
            0 <= k < lex_from(s, i)->Ok_0.len() ==> i <= (#[trigger] lex_from(s, i)->Ok_0[k]).start
                && lex_from(s, i)->Ok_0[k].end <= s.len(),
    decreases s.len() - i,
{
    if i < s.len() {
        lemma_scan_advances(s, i);
        match scan(s, i) {
            Step::Skip(j) => {
                lemma_lex_from_lossless(s, j);
                let ts = lex_from(s, j)->Ok_0;
                if ts.len() > 0 {
                    assert(s.subrange(i, ts[0].start) =~= s.subrange(i, j) + s.subrange(j, ts[0].start));
                    assert(rebuild(s, ts, i) =~= s.subrange(i, j) + rebuild(s, ts, j));
                    assert(skipped(s, i, ts[0].start));
                } else {
                    assert(skipped(s, i, s.len() as int));
                }
                assert(s.subrange(i, s.len() as int) =~= s.subrange(i, j) + s.subrange(j, s.len() as int));
            },
            Step::Token(k, j) => {
                lemma_lex_from_lossless(s, j);
                let rest = lex_from(s, j)->Ok_0;
                let ts = lex_from(s, i)->Ok_0;
                assert(ts.drop_first() =~= rest);
                assert(s.subrange(i, s.len() as int) =~= s.subrange(i, i) + s.subrange(i, j) + s.subrange(j, s.len() as int));
                assert forall|m: int| 0 <= m < ts.len() implies i <= (#[trigger] ts[m]).start && ts[m].end <= s.len() by {
                    if m > 0 {
                        assert(ts[m] == rest[m - 1]);
                    }
                };
            },
            Step::Fail(_) => {},
        }
    } else {
        assert(skipped(s, i, s.len() as int));
    }
}

/// Lexing is lossless: when the text lexes, the gaps before, between and
/// after the tokens are discarded material, and those gaps interleaved with
/// the tokens' own slices, in order, give back the whole text.
pub proof fn lemma_lex_lossless(s: Seq<char>)
    requires
        lex_spec(s) is Ok,
    ensures
        rebuild(s, lex_spec(s)->Ok_0, 0) == s,
        gaps_skipped(s, lex_spec(s)->Ok_0, 0),
{
    lemma_lex_from_lossless(s, 0);
    assert(s.subrange(0, s.len() as int) =~= s);
}

/// The byte offset of character position `i` of `s` in its UTF-8 encoding.
pub open spec fn byte_off(s: Seq<char>, i: int) -> int {
    encode_utf8(s.subrange(0, i)).len() as int
}

/// A token of the result agrees with a token of the model.
pub open spec fn token_agrees(t: Span, m: Tok, s: Seq<char>) -> bool {
    &&& t.token == m.kind
    &&& t.text@ == s.subrange(m.start, m.end)
    &&& t.span.start == byte_off(s, m.start)
    &&& t.span.end == byte_off(s, m.end)
}

pub open spec fn tokens_agree(ts: Seq<Span>, ms: Seq<Tok>, s: Seq<char>) -> bool {
    &&& ts.len() == ms.len()
    &&& forall|k: int| 0 <= k < ts.len() ==> token_agrees(#[trigger] ts[k], ms[k], s)
}

/// The result of `lex` on text whose characters are `s`.
pub open spec fn lex_result_agrees(s: Seq<char>, r: Result<Vec<Span>, LexerError>) -> bool {
    match lex_spec(s) {
        Ok(ms) => r is Ok && tokens_agree(r->Ok_0@, ms, s),
        Err((a, b)) => r is Err && r->Err_0.span.start == byte_off(s, a) && r->Err_0.span.end
            == byte_off(s, b),
    }
}

pub open spec fn join(acc: Seq<Tok>, r: Result<Seq<Tok>, (int, int)>) -> Result<Seq<Tok>, (int, int)> {
    match r {
        Ok(ts) => Ok(acc + ts),
        Err(e) => Err(e),
    }
}

pub proof fn lemma_encode_utf8_concat(a: Seq<char>, b: Seq<char>)
    ensures
        encode_utf8(a + b) == encode_utf8(a) + encode_utf8(b),
    decreases a.len(),
{
    if a.len() == 0 {
        assert(a + b =~= b);
    } else {
        lemma_encode_utf8_concat(a.drop_first(), b);
        assert((a + b).drop_first() =~= a.drop_first() + b);
    }
}

/// Relies on `FromIterator<char>` for `String`: the characters, in order.
#[verifier::external_body]
fn text_of(cs: &Vec<char>, start: usize, end: usize) -> (r: String)
    requires
        start <= end <= cs@.len(),
    ensures
        r@ == cs@.subrange(start as int, end as int),
{
    cs[start..end].iter().collect()
}

fn source_chars(source: &str) -> (r: Vec<char>)
    ensures
        r@ == source@,
{
    let mut it = source.chars();
    let mut v: Vec<char> = Vec::new();
    loop
        invariant
            it.remaining() == source@.subrange(v@.len() as int, source@.len() as int),
            v@ == source@.subrange(0, v@.len() as int),
            v@.len() <= source@.len(),
        decreases source@.len() - v@.len(),
    {
        match it.next() {
            Some(c) => {
                v.push(c);
            },
            None => {
                assert(v@ =~= source@);
                return v;
            },
        }
    }
}

/// The number of bytes of the UTF-8 encoding of `c`.
fn char_width(c: char) -> (w: usize)
    ensures
        w == encode_scalar(c as u32).len(),
{
    let v = c as u32;
    if v <= 0x7F {
        1
    } else if v <= 0x7FF {
        2
    } else if v <= 0xFFFF && !(0xD800 <= v && v <= 0xDFFF) {
        3
    } else {
        4
    }
}

/// The byte offset of each character position and of the end of the text.
fn byte_offsets(cs: &Vec<char>) -> (r: Vec<usize>)
    requires
        encode_utf8(cs@).len() <= usize::MAX,
    ensures
        r@.len() == cs@.len() + 1,
        forall|k: int| 0 <= k <= cs@.len() ==> r@[k] == byte_off(cs@, k),
{
    let mut r: Vec<usize> = Vec::new();
    r.push(0);
    let mut k: usize = 0;
    assert(cs@.subrange(0, 0) =~= Seq::<char>::empty());
    while k < cs.len()
        invariant
            k <= cs@.len(),
            r@.len() == k + 1,
            encode_utf8(cs@).len() <= usize::MAX,
            forall|m: int| 0 <= m <= k ==> r@[m] == byte_off(cs@, m),
        decreases cs@.len() - k,
    {
        let w = char_width(cs[k]);
        proof {
            let pre = cs@.subrange(0, k as int);
            assert(cs@.subrange(0, k + 1) =~= pre + seq![cs@[k as int]]);
            lemma_encode_utf8_concat(pre, seq![cs@[k as int]]);
            assert(seq![cs@[k as int]].drop_first() =~= Seq::<char>::empty());
            assert(encode_utf8(Seq::<char>::empty()) =~= Seq::<u8>::empty());
            assert(encode_utf8(seq![cs@[k as int]]) =~= encode_scalar(cs@[k as int] as u32));
            assert(cs@ =~= cs@.subrange(0, k + 1) + cs@.subrange(k + 1, cs@.len() as int));
            lemma_encode_utf8_concat(cs@.subrange(0, k + 1), cs@.subrange(k + 1, cs@.len() as int));
        }
        let next = r[k] + w;
        r.push(next);
        k = k + 1;
    }
    r
}

fn ws_end_exec(cs: &Vec<char>, i: usize) -> (j: usize)
    requires
        i <= cs@.len(),
    ensures
        j as int == ws_end(cs@, i as int),
        i <= j <= cs@.len(),
{
    let mut j = i;
    while j < cs.len() && (cs[j] == ' ' || cs[j] == '\t' || cs[j] == '\n' || cs[j] == '\r')
        invariant
            i <= j <= cs@.len(),
            ws_end(cs@, i as int) == ws_end(cs@, j as int),
        decreases cs@.len() - j,
    {
        j = j + 1;
    }
    j
}

fn is_alpha_exec(c: char) -> (r: bool)
    ensures
        r == is_alpha(c),
{
    ('a' <= c && c <= 'z') || ('A' <= c && c <= 'Z') || c == '_'
}

fn is_digit_exec(c: char) -> (r: bool)
    ensures
        r == is_digit(c),
{
    '0' <= c && c <= '9'
}

fn ident_end_exec(cs: &Vec<char>, i: usize) -> (j: usize)
    requires
        i <= cs@.len(),
    ensures
        j as int == ident_end(cs@, i as int),
        i <= j <= cs@.len(),
{
    let mut j = i;
    while j < cs.len() && (is_alpha_exec(cs[j]) || is_digit_exec(cs[j]))
        invariant
            i <= j <= cs@.len(),
            ident_end(cs@, i as int) == ident_end(cs@, j as int),
        decreases cs@.len() - j,
    {
        j = j + 1;
    }
    j
}

fn digits_end_exec(cs: &Vec<char>, i: usize) -> (j: usize)
    requires
        i <= cs@.len(),
    ensures
        j as int == digits_end(cs@, i as int),
        i <= j <= cs@.len(),
{
    let mut j = i;
    while j < cs.len() && is_digit_exec(cs[j])
        invariant
            i <= j <= cs@.len(),
            digits_end(cs@, i as int) == digits_end(cs@, j as int),
        decreases cs@.len() - j,
    {
        j = j + 1;
    }
    j
}

fn line_end_exec(cs: &Vec<char>, i: usize) -> (j: usize)
    requires
        i <= cs@.len(),
    ensures
        j as int == line_end(cs@, i as int),
        i <= j <= cs@.len(),
{
    let mut j = i;
    while j < cs.len() && cs[j] != '\n'
        invariant
            i <= j <= cs@.len(),
            line_end(cs@, i as int) == line_end(cs@, j as int),
        decreases cs@.len() - j,
    {
        j = j + 1;
    }
    j
}

fn block_comment_end_exec(cs: &Vec<char>, i: usize) -> (r: Option<usize>)
    requires
        i <= cs@.len(),
    ensures
        r matches Some(j) ==> block_comment_end(cs@, i as int) == Some(j as int) && j <= cs@.len(),
        r is None ==> block_comment_end(cs@, i as int) is None,
{
    let mut j = i;
    while cs.len() > 0 && j < cs.len() - 1
        invariant
            i <= j <= cs@.len(),
            block_comment_end(cs@, i as int) == block_comment_end(cs@, j as int),
        decreases cs@.len() - j,
    {
        if cs[j] == '*' && cs[j + 1] == '/' {
            return Some(j + 2);
        }
        j = j + 1;
    }
    None
}

fn string_end_exec(cs: &Vec<char>, i: usize) -> (r: Option<usize>)
    requires
        i <= cs@.len(),
    ensures
        r matches Some(j) ==> string_end(cs@, i as int) == Some(j as int) && j <= cs@.len(),
        r is None ==> string_end(cs@, i as int) is None,
{
    let mut j = i;
    while j < cs.len()
        invariant
            i <= j,
            string_end(cs@, i as int) == string_end(cs@, j as int),
        decreases cs@.len() - j,
    {
        if cs[j] == '"' {
            return Some(j + 1);
        } else if cs[j] == '\\' {
            if j + 1 < cs.len() {
                j = j + 2;
            } else {
                return None;
            }
        } else {
            j = j + 1;
        }
    }
    None
}

fn range_is(cs: &Vec<char>, i: usize, j: usize, lit: &str) -> (r: bool)
    requires
        i <= j <= cs@.len(),
    ensures
        r == (cs@.subrange(i as int, j as int) == lit@),
{
    let n = lit.unicode_len();
    if j - i != n {
        return false;
    }
    let mut k: usize = 0;
    while k < n
        invariant
            k <= n,
            n == lit@.len(),
            j - i == n,
            i <= j <= cs@.len(),
            forall|m: int| 0 <= m < k ==> cs@[i + m] == lit@[m],
        decreases n - k,
    {
        if cs[i + k] != lit.get_char(k) {
            assert(cs@.subrange(i as int, j as int)[k as int] != lit@[k as int]);
            return false;
        }
        k = k + 1;
    }
    assert(cs@.subrange(i as int, j as int) =~= lit@);
    true
}

fn keyword_exec(cs: &Vec<char>, i: usize, j: usize) -> (r: Option<Token>)
    requires
        i <= j <= cs@.len(),
    ensures
        r == keyword(cs@.subrange(i as int, j as int)),
{
    if range_is(cs, i, j, "fn") {
        Some(Token::Fn)
    } else if range_is(cs, i, j, "let") {
        Some(Token::Let)
    } else if range_is(cs, i, j, "if") {
        Some(Token::If)
    } else if range_is(cs, i, j, "else") {
        Some(Token::Else)
    } else if range_is(cs, i, j, "while") {
        Some(Token::While)
    } else if range_is(cs, i, j, "for") {
        Some(Token::For)
    } else if range_is(cs, i, j, "return") {
        Some(Token::Return)
    } else if range_is(cs, i, j, "struct") {
        Some(Token::Struct)
    } else if range_is(cs, i, j, "enum") {
        Some(Token::Enum)
    } else if range_is(cs, i, j, "match") {
        Some(Token::Match)
    } else if range_is(cs, i, j, "import") {
        Some(Token::Import)
    } else if range_is(cs, i, j, "true") {
        Some(Token::True)
    } else if range_is(cs, i, j, "false") {
        Some(Token::False)
    } else if range_is(cs, i, j, "null") {
        Some(Token::Null)
    } else {
        None
    }
}

fn two_char_op_exec(a: char, b: char) -> (r: Option<Token>)
    ensures
        r == two_char_op(a, b),
{
    if a == '=' && b == '=' {
        Some(Token::Equal)
    } else if a == '!' && b == '=' {
        Some(Token::NotEqual)
    } else if a == '<' && b == '=' {
        Some(Token::LessEqual)
    } else if a == '>' && b == '=' {
        Some(Token::GreaterEqual)
    } else if a == '&' && b == '&' {
        Some(Token::And)
    } else if a == '|' && b == '|' {
        Some(Token::Or)
    } else if a == '-' && b == '>' {
        Some(Token::Arrow)
    } else {
        None
    }
}

fn one_char_op_exec(c: char) -> (r: Option<Token>)
    ensures
        r == one_char_op(c),
{
    if c == '+' {
        Some(Token::Plus)
    } else if c == '-' {
        Some(Token::Minus)
    } else if c == '*' {
        Some(Token::Star)
    } else if c == '/' {
        Some(Token::Slash)
    } else if c == '%' {
        Some(Token::Percent)
    } else if c == '=' {
        Some(Token::Assign)
    } else if c == '<' {
        Some(Token::Less)
    } else if c == '>' {
        Some(Token::Greater)
    } else if c == '!' {
        Some(Token::Not)
    } else if c == '(' {
        Some(Token::LeftParen)
    } else if c == ')' {
        Some(Token::RightParen)
    } else if c == '{' {
        Some(Token::LeftBrace)
    } else if c == '}' {
        Some(Token::RightBrace)
    } else if c == '[' {
        Some(Token::LeftBracket)
    } else if c == ']' {
        Some(Token::RightBracket)
    } else if c == ';' {
        Some(Token::Semicolon)
    } else if c == ',' {
        Some(Token::Comma)
    } else if c == '.' {
        Some(Token::Dot)
    } else if c == ':' {
        Some(Token::Colon)
    } else {
        None
    }
}

enum ScanStep {
    Skip(usize),
    Token(Token, usize),
    Fail(usize),
}

spec fn step_agrees(e: ScanStep, st: Step) -> bool {
    match (e, st) {
        (ScanStep::Skip(a), Step::Skip(b)) => a == b,
        (ScanStep::Token(k, a), Step::Token(l, b)) => k == l && a == b,
        (ScanStep::Fail(a), Step::Fail(b)) => a == b,
        _ => false,
    }
}

fn scan_exec(cs: &Vec<char>, i: usize) -> (r: ScanStep)
    requires
        i < cs@.len(),
    ensures
        step_agrees(r, scan(cs@, i as int)),
{
    let c = cs[i];
    let has_next = i < cs.len() - 1;
    if c == ' ' || c == '\t' || c == '\n' || c == '\r' {
        ScanStep::Skip(ws_end_exec(cs, i))
    } else if c == '/' && has_next && cs[i + 1] == '/' {
        ScanStep::Skip(line_end_exec(cs, i + 2))
    } else if c == '/' && has_next && cs[i + 1] == '*' {
        match block_comment_end_exec(cs, i + 2) {
            Some(j) => ScanStep::Skip(j),
            None => ScanStep::Fail(i + 2),
        }
    } else if is_alpha_exec(c) {
        let j = ident_end_exec(cs, i);
        match keyword_exec(cs, i, j) {
            Some(k) => ScanStep::Token(k, j),
            None => ScanStep::Token(Token::Identifier, j),
        }
    } else if is_digit_exec(c) {
        let j = digits_end_exec(cs, i);
        if j < cs.len() - 1 && cs[j] == '.' && is_digit_exec(cs[j + 1]) {
            ScanStep::Token(Token::FloatLiteral, digits_end_exec(cs, j + 1))
        } else {
            ScanStep::Token(Token::IntLiteral, j)
        }
    } else if c == '"' {
        match string_end_exec(cs, i + 1) {
            Some(j) => ScanStep::Token(Token::StringLiteral, j),
            None => ScanStep::Fail(i + 1),
        }
    } else if has_next && two_char_op_exec(c, cs[i + 1]).is_some() {
        let k = two_char_op_exec(c, cs[i + 1]).unwrap();
        ScanStep::Token(k, i + 2)
    } else if one_char_op_exec(c).is_some() {
        let k = one_char_op_exec(c).unwrap();
        ScanStep::Token(k, i + 1)
    } else {
        ScanStep::Fail(i + 1)
    }
}

/// Splits source text into tokens, discarding whitespace and comments, or
/// reports the first lexeme that no token matches.
pub fn lex(source: &str) -> (r: Result<Vec<Span>, LexerError>)
    requires
        encode_utf8(source@).len() <= usize::MAX,
    ensures
        lex_result_agrees(source@, r),
{
    let cs = source_chars(source);
    let offs = byte_offsets(&cs);
    let mut tokens: Vec<Span> = Vec::new();
    let mut i: usize = 0;
    let ghost mut acc: Seq<Tok> = Seq::empty();
    assert(acc + Seq::<Tok>::empty() =~= acc);
    while i < cs.len()
        invariant
            i <= cs@.len(),
            cs@ == source@,
            offs@.len() == cs@.len() + 1,
            forall|k: int| 0 <= k <= cs@.len() ==> offs@[k] == byte_off(cs@, k),
            lex_spec(cs@) == join(acc, lex_from(cs@, i as int)),
            tokens_agree(tokens@, acc, cs@),
        decreases cs@.len() - i,
    {
        proof {
            lemma_scan_advances(cs@, i as int);
        }
        let st = scan_exec(&cs, i);
        match st {
            ScanStep::Skip(j) => {
                i = j;
            },
            ScanStep::Token(k, j) => {
                let t = Span { token: k, span: offs[i]..offs[j], text: text_of(&cs, i, j) };
                proof {
                    let m = Tok { kind: k, start: i as int, end: j as int };
                    match lex_from(cs@, j as int) {
                        Ok(ts) => {
                            assert(acc + (seq![m] + ts) =~= acc.push(m) + ts);
                        },
                        Err(_) => {},
                    }
                    acc = acc.push(m);
                }
                tokens.push(t);
                i = j;
            },
            ScanStep::Fail(j) => {
                let lexeme = text_of(&cs, i, j);
                let mut message = "Invalid token: '".to_string();
                message.append(lexeme.as_str());
                message.append("'");
                return Err(LexerError { message, span: offs[i]..offs[j] });
            },
        }
    }
    assert(acc + Seq::<Tok>::empty() =~= acc);
    Ok(tokens)
}

} // verus!
