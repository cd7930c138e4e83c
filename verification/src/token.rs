use vstd::prelude::*;
use vstd::string::*;

use crate::shell::Error;

verus! {

/// The kinds of token that a raw input line decomposes into.
#[allow(non_camel_case_types)]
#[derive(Debug, Clone, Copy, PartialEq, Eq, Structural)]
pub enum TokenKind {
    /// any bare word
    GENERIC,
    /// $identifier
    VARIABLE,
    /// '...' or "..."
    STRING,
    /// ;
    SEMICOLON,
    /// =
    ASSIGN,
    /// & (run the command in the background)
    BGPROCESS,
    /// &&
    AND,
    /// |
    PIPE,
    /// ||
    OR,
    /// <
    INSTREAM,
    /// >
    OUTSTREAM,
    /// significant line break
    NEWLINE,
    /// end of input; exactly one closes every token stream
    EOF,
}

/// A token: its kind and the exact slice of input it covers.
/// Quotes and escape markers are retained in the literal; they are stripped
/// only when the token's value is later resolved to text.
#[derive(Debug)]
pub struct Token {
    pub kind: TokenKind,
    pub value: String,
}

/// The mathematical image of a token: its kind and its text as a character
/// sequence.
#[verifier::ext_equal]
pub struct TokenModel {
    pub kind: TokenKind,
    pub text: Seq<char>,
}

impl View for Token {
    type V = TokenModel;

    open spec fn view(&self) -> TokenModel {
        TokenModel { kind: self.kind, text: self.value@ }
    }
}

impl Clone for Token {
    fn clone(&self) -> (res: Self)
        ensures
            res == *self,
    {
        Token { kind: self.kind, value: self.value.clone() }
    }
}

impl Token {
    /// Builds a token from its parts.
    pub fn new(kind: TokenKind, val: String) -> (res: Self)
        ensures
            res.kind == kind,
            res.value == val,
    {
        Token { kind, value: val }
    }

    /// The exact input text this token covers.
    pub fn value(&self) -> (res: &String)
        ensures
            res == &self.value,
    {
        &self.value
    }

    /// This token's kind.
    pub fn kind(&self) -> (res: TokenKind)
        ensures
            res == self.kind,
    {
        self.kind
    }

    /// This token's kind, by value.
    pub fn get_kind(&self) -> (res: TokenKind)
        ensures
            res == self.kind,
    {
        self.kind
    }

    /// A copy of the text this token covers.
    pub fn get_val(&self) -> (res: String)
        ensures
            res == self.value,
    {
        self.value.clone()
    }
}

// ---------------------------------------------------------------------------
// The specification of the scan: what `tokenize` must produce.
// ---------------------------------------------------------------------------

/// Insignificant whitespace: skipped between tokens.  A newline is not among
/// these; it is a token of its own.
pub open spec fn is_space_char(c: char) -> bool {
    c == ' ' || c == '\t' || c == '\r'
}

/// The characters that end a bare word and begin a symbol token.
pub open spec fn is_symbol_char(c: char) -> bool {
    c == '=' || c == '&' || c == '|' || c == ';' || c == '<' || c == '>' || c == '\n'
}

pub open spec fn is_quote_char(c: char) -> bool {
    c == '\'' || c == '"'
}

/// A word ends at whitespace or at a symbol character (unless escaped).
pub open spec fn ends_word(c: char) -> bool {
    is_space_char(c) || is_symbol_char(c)
}

/// The kind of the single-character symbol tokens.
pub open spec fn symbol_kind(c: char) -> TokenKind {
    if c == '\n' {
        TokenKind::NEWLINE
    } else if c == ';' {
        TokenKind::SEMICOLON
    } else if c == '=' {
        TokenKind::ASSIGN
    } else if c == '<' {
        TokenKind::INSTREAM
    } else if c == '>' {
        TokenKind::OUTSTREAM
    } else if c == '&' {
        TokenKind::BGPROCESS
    } else {
        TokenKind::PIPE
    }
}

/// First position at or after `i` that does not hold insignificant whitespace.
pub open spec fn skip_spaces(s: Seq<char>, i: int) -> int
    decreases s.len() - i
        when 0 <= i <= s.len()
{
    if i < s.len() && is_space_char(s[i]) {
        skip_spaces(s, i + 1)
    } else {
        i
    }
}

/// First position at or after `i` holding a newline, or the end of input.
pub open spec fn line_end(s: Seq<char>, i: int) -> int
    decreases s.len() - i
        when 0 <= i <= s.len()
{
    if i < s.len() && s[i] != '\n' {
        line_end(s, i + 1)
    } else {
        i
    }
}

/// Where the next token begins: whitespace is skipped, and a `#` starts a
/// comment that runs to the next newline.
pub open spec fn token_start(s: Seq<char>, i: int) -> int {
    let j = skip_spaces(s, i);
    if j < s.len() && s[j] == '#' {
        line_end(s, j)
    } else {
        j
    }
}

/// How many characters the bare word starting at `i` covers.  A backslash
/// escapes the character after it — both stay in the word, even a space or a
/// symbol — so an escaped operator does not end the word.
pub open spec fn word_len(s: Seq<char>, i: int) -> int
    decreases s.len() - i
        when 0 <= i <= s.len()
{
    if i >= s.len() {
        0
    } else if s[i] == '\\' {
        if i + 1 < s.len() {
            2 + word_len(s, i + 2)
        } else {
            1
        }
    } else if ends_word(s[i]) {
        0
    } else {
        1 + word_len(s, i + 1)
    }
}

/// The position of the closing quote of a string whose body starts at `i`,
/// or `None` if the string never closes.  A backslash escapes the character
/// after it, so an escaped quote does not close the string.
pub open spec fn string_end(s: Seq<char>, q: char, i: int) -> Option<int>
    decreases s.len() - i
        when 0 <= i <= s.len()
{
    if i >= s.len() {
        None
    } else if s[i] == q {
        Some(i)
    } else if s[i] == '\\' {
        if i + 1 <= s.len() - 1 {
            string_end(s, q, i + 2)
        } else {
            None
        }
    } else {
        string_end(s, q, i + 1)
    }
}

/// The token that begins exactly at position `i` (which must not hold
/// insignificant whitespace or a comment).  `None` means an unterminated
/// string: the whole scan fails.
pub open spec fn next_token(s: Seq<char>, i: int) -> Option<TokenModel>
    recommends
        0 <= i <= s.len(),
{
    if i >= s.len() {
        Some(TokenModel { kind: TokenKind::EOF, text: Seq::empty() })
    } else {
        let c = s[i];
        if c == '&' && i + 1 < s.len() && s[i + 1] == '&' {
            Some(TokenModel { kind: TokenKind::AND, text: s.subrange(i, i + 2) })
        } else if c == '|' && i + 1 < s.len() && s[i + 1] == '|' {
            Some(TokenModel { kind: TokenKind::OR, text: s.subrange(i, i + 2) })
        } else if is_symbol_char(c) {
            Some(TokenModel { kind: symbol_kind(c), text: s.subrange(i, i + 1) })
        } else if is_quote_char(c) {
            match string_end(s, c, i + 1) {
                Some(j) => Some(TokenModel { kind: TokenKind::STRING, text: s.subrange(i, j + 1) }),
                None => None,
            }
        } else {
            Some(
                TokenModel {
                    kind: if c == '$' {
                        TokenKind::VARIABLE
                    } else {
                        TokenKind::GENERIC
                    },
                    text: s.subrange(i, i + word_len(s, i)),
                },
            )
        }
    }
}

/// Prepends a finished prefix to the outcome of scanning the rest.
pub open spec fn compose(pre: Seq<TokenModel>, rest: Option<Seq<TokenModel>>) -> Option<
    Seq<TokenModel>,
> {
    match rest {
        Some(r) => Some(pre + r),
        None => None,
    }
}

/// The full token stream of `s` from position `i` on: each step skips to the
/// next token start and scans one token; an EOF token closes the stream, and
/// an unterminated string fails the whole scan.
pub open spec fn spec_tokens(s: Seq<char>, i: int) -> Option<Seq<TokenModel>>
    decreases s.len() - i
        when 0 <= i <= s.len()
        via spec_tokens_decreases
{
    let j = token_start(s, i);
    match next_token(s, j) {
        Some(t) => {
            if t.kind == TokenKind::EOF {
                Some(seq![t])
            } else {
                compose(seq![t], spec_tokens(s, j + t.text.len()))
            }
        },
        None => None,
    }
}

#[via_fn]
proof fn spec_tokens_decreases(s: Seq<char>, i: int) {
    lemma_token_start(s, i);
    lemma_next_token(s, token_start(s, i));
}

// ---------------------------------------------------------------------------
// Bounds of the spec scan.
// ---------------------------------------------------------------------------

pub proof fn lemma_skip_spaces(s: Seq<char>, i: int)
    requires
        0 <= i <= s.len(),
    ensures
        i <= skip_spaces(s, i) <= s.len(),
        skip_spaces(s, i) == s.len() || !is_space_char(s[skip_spaces(s, i)]),
    decreases s.len() - i,
{
    if i < s.len() && is_space_char(s[i]) {
        lemma_skip_spaces(s, i + 1);
    }
}

pub proof fn lemma_line_end(s: Seq<char>, i: int)
    requires
        0 <= i <= s.len(),
    ensures
        i <= line_end(s, i) <= s.len(),
        line_end(s, i) == s.len() || s[line_end(s, i)] == '\n',
    decreases s.len() - i,
{
    if i < s.len() && s[i] != '\n' {
        lemma_line_end(s, i + 1);
    }
}

pub proof fn lemma_token_start(s: Seq<char>, i: int)
    requires
        0 <= i <= s.len(),
    ensures
        i <= token_start(s, i) <= s.len(),
        token_start(s, i) == s.len() || (!is_space_char(s[token_start(s, i)]) && s[token_start(
            s,
            i,
        )] != '#'),
{
    lemma_skip_spaces(s, i);
    let j = skip_spaces(s, i);
    if j < s.len() && s[j] == '#' {
        lemma_line_end(s, j);
    }
}

pub proof fn lemma_word_len(s: Seq<char>, i: int)
    requires
        0 <= i <= s.len(),
    ensures
        0 <= word_len(s, i),
        i + word_len(s, i) <= s.len(),
        i < s.len() && !ends_word(s[i]) ==> word_len(s, i) >= 1,
    decreases s.len() - i,
{
    if i < s.len() {
        if s[i] == '\\' {
            if i + 1 < s.len() {
                lemma_word_len(s, i + 2);
            }
        } else if !ends_word(s[i]) {
            lemma_word_len(s, i + 1);
        }
    }
}

pub proof fn lemma_string_end(s: Seq<char>, q: char, i: int)
    requires
        0 <= i <= s.len(),
    ensures
        match string_end(s, q, i) {
            Some(j) => i <= j < s.len() && s[j] == q,
            None => true,
        },
    decreases s.len() - i,
{
    if i < s.len() && s[i] != q {
        if s[i] == '\\' {
            if i + 1 <= s.len() - 1 {
                lemma_string_end(s, q, i + 2);
            }
        } else {
            lemma_string_end(s, q, i + 1);
        }
    }
}

/// At a genuine token start, every token except EOF covers at least one
/// character and stays within the input.
pub proof fn lemma_next_token(s: Seq<char>, i: int)
    requires
        0 <= i <= s.len(),
        i == s.len() || (!is_space_char(s[i]) && s[i] != '#'),
    ensures
        match next_token(s, i) {
            Some(t) => t.kind == TokenKind::EOF || (1 <= t.text.len() && i + t.text.len()
                <= s.len()),
            None => true,
        },
{
    if i < s.len() {
        let c = s[i];
        if is_quote_char(c) && !(c == '&' && i + 1 < s.len() && s[i + 1] == '&') && !(c == '|' && i
            + 1 < s.len() && s[i + 1] == '|') && !is_symbol_char(c) {
            lemma_string_end(s, c, i + 1);
        }
        lemma_word_len(s, i);
    }
}

// ---------------------------------------------------------------------------
// The executable scan.
// ---------------------------------------------------------------------------

fn is_space_exec(c: char) -> (b: bool)
    ensures
        b == is_space_char(c),
{
    c == ' ' || c == '\t' || c == '\r'
}

fn is_symbol_exec(c: char) -> (b: bool)
    ensures
        b == is_symbol_char(c),
{
    c == '=' || c == '&' || c == '|' || c == ';' || c == '<' || c == '>' || c == '\n'
}

fn symbol_kind_exec(c: char) -> (k: TokenKind)
    ensures
        k == symbol_kind(c),
{
    if c == '\n' {
        TokenKind::NEWLINE
    } else if c == ';' {
        TokenKind::SEMICOLON
    } else if c == '=' {
        TokenKind::ASSIGN
    } else if c == '<' {
        TokenKind::INSTREAM
    } else if c == '>' {
        TokenKind::OUTSTREAM
    } else if c == '&' {
        TokenKind::BGPROCESS
    } else {
        TokenKind::PIPE
    }
}

/// Advances past whitespace and a line comment to the next token start.
fn scan_start(s: &str, n: usize, i: usize) -> (j: usize)
    requires
        n == s@.len(),
        i <= n,
    ensures
        j == token_start(s@, i as int),
        i <= j <= n,
{
    let mut j = i;
    while j < n && is_space_exec(s.get_char(j))
        invariant
            i <= j <= n,
            n == s@.len(),
            skip_spaces(s@, i as int) == skip_spaces(s@, j as int),
        decreases n - j,
    {
        proof {
            assert(skip_spaces(s@, j as int) == skip_spaces(s@, j + 1));
        }
        j = j + 1;
    }
    proof {
        assert(skip_spaces(s@, j as int) == j);
    }
    if j < n && s.get_char(j) == '#' {
        let ghost start = j;
        while j < n && s.get_char(j) != '\n'
            invariant
                start <= j <= n,
                n == s@.len(),
                line_end(s@, start as int) == line_end(s@, j as int),
            decreases n - j,
        {
            proof {
                assert(line_end(s@, j as int) == line_end(s@, j + 1));
            }
            j = j + 1;
        }
        proof {
            assert(line_end(s@, j as int) == j);
        }
    }
    j
}

/// Measures the bare word that starts at `i`.
fn scan_word(s: &str, n: usize, i: usize) -> (l: usize)
    requires
        n == s@.len(),
        i <= n,
    ensures
        l == word_len(s@, i as int),
        i + l <= n,
{
    let mut j = i;
    loop
        invariant
            i <= j <= n,
            n == s@.len(),
            word_len(s@, i as int) == (j - i) + word_len(s@, j as int),
        ensures
            i <= j <= n,
            word_len(s@, i as int) == j - i,
        decreases n - j,
    {
        if j >= n {
            proof {
                assert(word_len(s@, j as int) == 0);
            }
            break ;
        }
        let c = s.get_char(j);
        if c == '\\' {
            if j + 1 < n {
                proof {
                    assert(word_len(s@, j as int) == 2 + word_len(s@, j + 2));
                }
                j = j + 2;
            } else {
                proof {
                    assert(word_len(s@, j as int) == 1);
                    assert(word_len(s@, j + 1) == 0);
                }
                j = j + 1;
            }
        } else if is_space_exec(c) || is_symbol_exec(c) {
            proof {
                assert(word_len(s@, j as int) == 0);
            }
            break ;
        } else {
            proof {
                assert(word_len(s@, j as int) == 1 + word_len(s@, j + 1));
            }
            j = j + 1;
        }
    }
    j - i
}

/// Finds the closing quote of the string whose body starts at `i`.
fn scan_string(s: &str, n: usize, i: usize, q: char) -> (r: Option<usize>)
    requires
        n == s@.len(),
        i <= n,
    ensures
        match r {
            Some(j) => string_end(s@, q, i as int) == Some(j as int) && i <= j < n,
            None => string_end(s@, q, i as int) is None,
        },
{
    let mut j = i;
    loop
        invariant
            i <= j <= n,
            n == s@.len(),
            string_end(s@, q, i as int) == string_end(s@, q, j as int),
        decreases n - j,
    {
        if j >= n {
            return None;
        }
        let c = s.get_char(j);
        if c == q {
            return Some(j);
        }
        if c == '\\' {
            if j + 1 < n {
                proof {
                    assert(string_end(s@, q, j as int) == string_end(s@, q, j + 2));
                }
                j = j + 2;
            } else {
                return None;
            }
        } else {
            proof {
                assert(string_end(s@, q, j as int) == string_end(s@, q, j + 1));
            }
            j = j + 1;
        }
    }
}

/// Scans the single token that begins at `i` and reports how many characters
/// it covers.
fn scan_token(s: &str, n: usize, i: usize) -> (r: Result<(Token, usize), Error>)
    requires
        n == s@.len(),
        i <= n,
    ensures
        match r {
            Ok(p) => next_token(s@, i as int) == Some(p.0@) && p.1 == p.0@.text.len() && i + p.1
                <= n,
            Err(e) => next_token(s@, i as int) is None && (e matches Error::SyntaxError(_)),
        },
{
    if i >= n {
        return Ok((Token { kind: TokenKind::EOF, value: String::new() }, 0));
    }
    let c = s.get_char(i);
    if c == '&' && i + 1 < n && s.get_char(i + 1) == '&' {
        let value = s.substring_char(i, i + 2).to_owned();
        Ok((Token { kind: TokenKind::AND, value }, 2))
    } else if c == '|' && i + 1 < n && s.get_char(i + 1) == '|' {
        let value = s.substring_char(i, i + 2).to_owned();
        Ok((Token { kind: TokenKind::OR, value }, 2))
    } else if is_symbol_exec(c) {
        let value = s.substring_char(i, i + 1).to_owned();
        Ok((Token { kind: symbol_kind_exec(c), value }, 1))
    } else if c == '\'' || c == '"' {
        match scan_string(s, n, i + 1, c) {
            Some(j) => {
                let value = s.substring_char(i, j + 1).to_owned();
                Ok((Token { kind: TokenKind::STRING, value }, j + 1 - i))
            },
            None => Err(Error::SyntaxError("unterminated string literal")),
        }
    } else {
        let l = scan_word(s, n, i);
        let value = s.substring_char(i, i + l).to_owned();
        let kind = if c == '$' {
            TokenKind::VARIABLE
        } else {
            TokenKind::GENERIC
        };
        Ok((Token { kind, value }, l))
    }
}

impl Token {
    /// Scans the single token that begins the given text: the EOF token for
    /// empty text, a syntax error for an unterminated quote.
    pub fn get_token(input: String) -> (r: Result<Token, Error>)
        ensures
            match r {
                Ok(tok) => next_token(input@, 0) == Some(tok@),
                Err(e) => next_token(input@, 0) is None && (e matches Error::SyntaxError(_)),
            },
    {
        let s = input.as_str();
        let n = s.unicode_len();
        match scan_token(s, n, 0) {
            Ok((tok, _)) => Ok(tok),
            Err(e) => Err(e),
        }
    }
}

/// The images of a produced token vector.
pub open spec fn models_of(toks: Seq<Token>) -> Seq<TokenModel> {
    toks.map_values(|t: Token| t@)
}

/// Prepending nothing changes nothing.
proof fn lemma_compose_empty(rest: Option<Seq<TokenModel>>)
    ensures
        compose(Seq::empty(), rest) == rest,
{
    match rest {
        Some(r) => {
            assert(Seq::empty() + r =~= r);
        },
        None => {},
    }
}

/// Splits raw input into its token stream in a single forward scan.
/// The result is exactly what the specification scan `spec_tokens` describes:
/// one EOF token closes the stream, and an unterminated quote fails the whole
/// call with a syntax error — no partial result.
pub fn tokenize(input: String) -> (r: Result<Vec<Token>, Error>)
    ensures
        match r {
            Ok(toks) => spec_tokens(input@, 0) == Some(models_of(toks@)),
            Err(e) => spec_tokens(input@, 0) is None && (e matches Error::SyntaxError(_)),
        },
{
    let s = input.as_str();
    let n = s.unicode_len();
    let mut tokens: Vec<Token> = Vec::new();
    let mut i: usize = 0;
    proof {
        lemma_compose_empty(spec_tokens(s@, 0));
        assert(models_of(tokens@) =~= Seq::<TokenModel>::empty());
    }
    loop
        invariant
            n == s@.len(),
            s@ == input@,
            i <= n,
            spec_tokens(s@, 0) == compose(models_of(tokens@), spec_tokens(s@, i as int)),
        decreases n - i,
    {
        let j = scan_start(s, n, i);
        match scan_token(s, n, j) {
            Err(e) => {
                proof {
                    assert(spec_tokens(s@, i as int) is None);
                }
                return Err(e);
            },
            Ok((tok, l)) => {
                let is_eof = tok.kind == TokenKind::EOF;
                let ghost prev = tokens@;
                let ghost t = tok@;
                tokens.push(tok);
                proof {
                    assert(models_of(tokens@) =~= models_of(prev).push(t));
                }
                if is_eof {
                    proof {
                        assert(spec_tokens(s@, i as int) == Some(seq![t]));
                        assert(models_of(prev) + seq![t] =~= models_of(prev).push(t));
                    }
                    return Ok(tokens);
                }
                proof {
                    lemma_token_start(s@, i as int);
                    lemma_next_token(s@, j as int);
                    assert(spec_tokens(s@, i as int) == compose(seq![t], spec_tokens(s@, j + l)));
                    lemma_compose_chain(models_of(prev), t, spec_tokens(s@, j + l));
                }
                i = j + l;
            },
        }
    }
}

/// Chaining a one-token step onto a finished prefix.
proof fn lemma_compose_chain(pre: Seq<TokenModel>, t: TokenModel, rest: Option<Seq<TokenModel>>)
    ensures
        compose(pre, compose(seq![t], rest)) == compose(pre.push(t), rest),
{
    match rest {
        Some(r) => {
            assert(pre + (seq![t] + r) =~= pre.push(t) + r);
        },
        None => {},
    }
}

// ---------------------------------------------------------------------------
// Laws of the scan.
// ---------------------------------------------------------------------------

/// At the end of the input only the EOF token remains.
pub proof fn lemma_tokens_at_end(s: Seq<char>)
    ensures
        spec_tokens(s, s.len() as int) == Some(
            seq![TokenModel { kind: TokenKind::EOF, text: Seq::empty() }],
        ),
{
    let n = s.len() as int;
    assert(skip_spaces(s, n) == n);
    assert(token_start(s, n) == n);
    assert(next_token(s, n) == Some(TokenModel { kind: TokenKind::EOF, text: Seq::empty() }));
}

/// A run of characters that neither end a word nor escape anything is
/// entirely word material.
pub proof fn lemma_plain_word_len(s: Seq<char>, i: int)
    requires
        0 <= i <= s.len(),
        forall|k: int| i <= k < s.len() ==> !ends_word(#[trigger] s[k]) && s[k] != '\\',
    ensures
        word_len(s, i) == s.len() - i,
    decreases s.len() - i,
{
    if i < s.len() {
        lemma_plain_word_len(s, i + 1);
    }
}

/// Law: whatever makes up one whole word scans as one single generic token —
/// nothing inside it, escaped operators and odd punctuation included, splits
/// it.  The hypotheses say only that the word scan covers all of `s` and that
/// `s` does not begin like a variable, a comment, or a quoted string.
pub proof fn lemma_word_single_token(s: Seq<char>)
    requires
        s.len() > 0,
        word_len(s, 0) == s.len(),
        s[0] != '$',
        s[0] != '#',
        !is_quote_char(s[0]),
    ensures
        spec_tokens(s, 0) == Some(
            seq![
                TokenModel { kind: TokenKind::GENERIC, text: s },
                TokenModel { kind: TokenKind::EOF, text: Seq::empty() },
            ],
        ),
{
    assert(word_len(s, 0) > 0);
    assert(s[0] == '\\' || !ends_word(s[0]));
    assert(!is_space_char(s[0]));
    assert(skip_spaces(s, 0) == 0);
    assert(token_start(s, 0) == 0);
    assert(!is_symbol_char(s[0]));
    let t = TokenModel { kind: TokenKind::GENERIC, text: s.subrange(0, s.len() as int) };
    assert(next_token(s, 0) == Some(t));
    assert(t.text =~= s);
    lemma_tokens_at_end(s);
    assert(spec_tokens(s, 0) == compose(seq![t], spec_tokens(s, s.len() as int)));
    assert(seq![t] + seq![TokenModel { kind: TokenKind::EOF, text: Seq::empty() }] =~= seq![
        TokenModel { kind: TokenKind::GENERIC, text: s },
        TokenModel { kind: TokenKind::EOF, text: Seq::empty() },
    ]);
}

/// The bare operator characters scan as operator tokens of their own when
/// they stand alone: each holds exactly its own text.
pub proof fn lemma_standalone_operators()
    ensures
        spec_tokens(seq!['&'], 0) == Some(
            seq![
                TokenModel { kind: TokenKind::BGPROCESS, text: seq!['&'] },
                TokenModel { kind: TokenKind::EOF, text: Seq::empty() },
            ],
        ),
        spec_tokens(seq!['&', '&'], 0) == Some(
            seq![
                TokenModel { kind: TokenKind::AND, text: seq!['&', '&'] },
                TokenModel { kind: TokenKind::EOF, text: Seq::empty() },
            ],
        ),
        spec_tokens(seq!['|'], 0) == Some(
            seq![
                TokenModel { kind: TokenKind::PIPE, text: seq!['|'] },
                TokenModel { kind: TokenKind::EOF, text: Seq::empty() },
            ],
        ),
        spec_tokens(seq!['|', '|'], 0) == Some(
            seq![
                TokenModel { kind: TokenKind::OR, text: seq!['|', '|'] },
                TokenModel { kind: TokenKind::EOF, text: Seq::empty() },
            ],
        ),
{
    lemma_standalone_operator_pair('&', TokenKind::BGPROCESS, TokenKind::AND);
    lemma_standalone_operator_pair('|', TokenKind::PIPE, TokenKind::OR);
}

proof fn lemma_standalone_operator_pair(c: char, single: TokenKind, double: TokenKind)
    requires
        c == '&' || c == '|',
        single == symbol_kind(c),
        double == (if c == '&' {
            TokenKind::AND
        } else {
            TokenKind::OR
        }),
    ensures
        spec_tokens(seq![c], 0) == Some(
            seq![
                TokenModel { kind: single, text: seq![c] },
                TokenModel { kind: TokenKind::EOF, text: Seq::empty() },
            ],
        ),
        spec_tokens(seq![c, c], 0) == Some(
            seq![
                TokenModel { kind: double, text: seq![c, c] },
                TokenModel { kind: TokenKind::EOF, text: Seq::empty() },
            ],
        ),
{
    let s1 = seq![c];
    assert(token_start(s1, 0) == 0);
    assert(next_token(s1, 0) == Some(TokenModel { kind: single, text: s1.subrange(0, 1) }));
    assert(s1.subrange(0, 1) =~= s1);
    lemma_tokens_at_end(s1);
    assert(seq![TokenModel { kind: single, text: s1 }] + seq![
        TokenModel { kind: TokenKind::EOF, text: Seq::empty() },
    ] =~= seq![
        TokenModel { kind: single, text: s1 },
        TokenModel { kind: TokenKind::EOF, text: Seq::empty() },
    ]);
    let s2 = seq![c, c];
    assert(token_start(s2, 0) == 0);
    assert(next_token(s2, 0) == Some(TokenModel { kind: double, text: s2.subrange(0, 2) }));
    assert(s2.subrange(0, 2) =~= s2);
    lemma_tokens_at_end(s2);
    assert(seq![TokenModel { kind: double, text: s2 }] + seq![
        TokenModel { kind: TokenKind::EOF, text: Seq::empty() },
    ] =~= seq![
        TokenModel { kind: double, text: s2 },
        TokenModel { kind: TokenKind::EOF, text: Seq::empty() },
    ]);
}

} // verus!
