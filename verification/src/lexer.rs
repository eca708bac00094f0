//! The lexer: turns raw source text into an ordered sequence of tokens.
//!
//! Scanning walks the characters left to right with one character of
//! lookahead; digit and alphabetic runs are accumulated into single
//! tokens. The function `spec_lex` is the mathematical definition of the
//! token sequence of a text, and `tokenize` is proved to return exactly
//! that sequence, or the first unrecognized character as a `LexError`.

use vstd::prelude::*;
use crate::errors::InterpError;

verus! {

/// The kind of a token.
#[derive(Debug, Clone, Copy, PartialEq, Eq, Structural)]
pub enum TokenType {
    // literal types
    Null,
    Number,
    Identifier,
    // keywords
    Let,
    Const,
    // grouping and operators
    Equals,
    Semicolon,
    OpenParen,
    CloseParen,
    BinaryOperator,
    /// End of the input text.
    EOF,
}

/// A token: its literal text and its kind.
#[derive(Debug)]
pub struct Token {
    pub tvalue: String,
    pub ttype: TokenType,
}

impl Clone for Token {
    fn clone(&self) -> (r: Self)
        ensures
            r == *self,
    {
        Token { tvalue: self.tvalue.clone(), ttype: self.ttype }
    }
}

/// The mathematical shape of a token: its text as a character sequence
/// and its kind.
pub struct TokenModel {
    pub text: Seq<char>,
    pub kind: TokenType,
}

/// The model of a token.
pub open spec fn token_model(t: Token) -> TokenModel {
    TokenModel { text: t.tvalue@, kind: t.ttype }
}

/// The models of a token sequence, element by element.
pub open spec fn tokens_model(ts: Seq<Token>) -> Seq<TokenModel> {
    ts.map_values(|t: Token| token_model(t))
}

/// Builds a token from its text and kind.
pub fn token(tvalue: String, ttype: TokenType) -> (t: Token)
    ensures
        t == (Token { tvalue, ttype }),
{
    Token { tvalue, ttype }
}

/// A decimal digit.
pub open spec fn spec_is_digit(c: char) -> bool {
    '0' <= c && c <= '9'
}

/// Whitespace that the lexer discards.
pub open spec fn spec_is_skippable(c: char) -> bool {
    c == ' ' || c == '\n' || c == '\t'
}

/// One of the five binary-operator characters.
pub open spec fn spec_is_operator(c: char) -> bool {
    c == '+' || c == '-' || c == '*' || c == '/' || c == '%'
}

/// Whether a character is alphabetic, exactly as the Unicode tables of
/// the standard library decide it.
pub uninterp spec fn alphabetic(c: char) -> bool;

/// Relies on char::is_alphabetic: the result depends on the character
/// alone (a fixed Unicode property table).
#[verifier::external_body]
fn is_alpha(c: char) -> (r: bool)
    ensures
        r == alphabetic(c),
{
    c.is_alphabetic()
}

/// Relies on String::push: appends one character at the end.
#[verifier::external_body]
fn push_char(s: &mut String, c: char)
    ensures
        final(s)@ == old(s)@.push(c),
{
    s.push(c)
}

fn is_skippable(c: char) -> (r: bool)
    ensures
        r == spec_is_skippable(c),
{
    c == ' ' || c == '\n' || c == '\t'
}

fn is_digit(c: char) -> (r: bool)
    ensures
        r == spec_is_digit(c),
{
    '0' <= c && c <= '9'
}

fn is_operator(c: char) -> (r: bool)
    ensures
        r == spec_is_operator(c),
{
    c == '+' || c == '-' || c == '*' || c == '/' || c == '%'
}

/// The kind of an alphabetic run: the keyword's kind when the run is a
/// reserved word, else `Identifier`.
pub open spec fn spec_keyword(text: Seq<char>) -> TokenType {
    if text == "let"@ {
        TokenType::Let
    } else if text == "const"@ {
        TokenType::Const
    } else if text == "null"@ {
        TokenType::Null
    } else {
        TokenType::Identifier
    }
}

fn keyword_type(text: &String) -> (r: TokenType)
    ensures
        r == spec_keyword(text@),
{
    if text.eq(&String::from_str("let")) {
        TokenType::Let
    } else if text.eq(&String::from_str("const")) {
        TokenType::Const
    } else if text.eq(&String::from_str("null")) {
        TokenType::Null
    } else {
        TokenType::Identifier
    }
}

/// The position right after the digit run that starts at `i`.
pub open spec fn digit_run_end(s: Seq<char>, i: int) -> int
    decreases s.len() - i,
{
    if 0 <= i && i < s.len() && spec_is_digit(s[i]) {
        digit_run_end(s, i + 1)
    } else {
        i
    }
}

/// The position right after the alphabetic run that starts at `i`.
pub open spec fn alpha_run_end(s: Seq<char>, i: int) -> int
    decreases s.len() - i,
{
    if 0 <= i && i < s.len() && alphabetic(s[i]) {
        alpha_run_end(s, i + 1)
    } else {
        i
    }
}

proof fn lemma_digit_run_end(s: Seq<char>, i: int)
    requires
        0 <= i <= s.len(),
    ensures
        i <= digit_run_end(s, i) <= s.len(),
        forall|k: int| i <= k < digit_run_end(s, i) ==> spec_is_digit(s[k]),
    decreases s.len() - i,
{
    if i < s.len() && spec_is_digit(s[i]) {
        lemma_digit_run_end(s, i + 1);
    }
}

proof fn lemma_alpha_run_end(s: Seq<char>, i: int)
    requires
        0 <= i <= s.len(),
    ensures
        i <= alpha_run_end(s, i) <= s.len(),
    decreases s.len() - i,
{
    if i < s.len() && alphabetic(s[i]) {
        lemma_alpha_run_end(s, i + 1);
    }
}

/// Clips a run end into the window that makes the recursion of
/// `spec_lex` visibly terminating; on every reachable argument the run
/// end already lies in that window and the clip changes nothing.
pub open spec fn clip(x: int, lo: int, hi: int) -> int {
    let capped = if x > hi {
        hi
    } else {
        x
    };
    if capped < lo {
        lo
    } else {
        capped
    }
}

/// Prepends a token to a lexing result, keeping a failure as it is.
pub open spec fn lex_cons(t: TokenModel, rest: Result<Seq<TokenModel>, char>) -> Result<
    Seq<TokenModel>,
    char,
> {
    match rest {
        Ok(ts) => Ok(seq![t] + ts),
        Err(c) => Err(c),
    }
}

/// The token sequence of the text `s` from position `i` on: the
/// mathematical definition of lexing. Single characters map to their
/// tokens, digit and alphabetic runs are taken whole, whitespace is
/// discarded, and the first character that fits no class is the failure.
/// The sequence always ends with a single `EOF` token.
pub open spec fn spec_lex(s: Seq<char>, i: int) -> Result<Seq<TokenModel>, char>
    decreases s.len() - i,
{
    if i < 0 || i >= s.len() {
        Ok(seq![TokenModel { text: "EndOfFile"@, kind: TokenType::EOF }])
    } else {
        let c = s[i];
        if c == '(' {
            lex_cons(TokenModel { text: seq![c], kind: TokenType::OpenParen }, spec_lex(s, i + 1))
        } else if c == ')' {
            lex_cons(TokenModel { text: seq![c], kind: TokenType::CloseParen }, spec_lex(s, i + 1))
        } else if spec_is_operator(c) {
            lex_cons(
                TokenModel { text: seq![c], kind: TokenType::BinaryOperator },
                spec_lex(s, i + 1),
            )
        } else if c == '=' {
            lex_cons(TokenModel { text: seq![c], kind: TokenType::Equals }, spec_lex(s, i + 1))
        } else if c == ';' {
            lex_cons(TokenModel { text: seq![c], kind: TokenType::Semicolon }, spec_lex(s, i + 1))
        } else if spec_is_digit(c) {
            let end = clip(digit_run_end(s, i), i + 1, s.len() as int);
            lex_cons(
                TokenModel { text: s.subrange(i, end), kind: TokenType::Number },
                spec_lex(s, end),
            )
        } else if alphabetic(c) {
            let end = clip(alpha_run_end(s, i), i + 1, s.len() as int);
            let text = s.subrange(i, end);
            lex_cons(TokenModel { text, kind: spec_keyword(text) }, spec_lex(s, end))
        } else if spec_is_skippable(c) {
            spec_lex(s, i + 1)
        } else {
            Err(c)
        }
    }
}

/// Appends an already-lexed prefix in front of the result for the rest
/// of the text.
pub open spec fn lex_concat(done: Seq<TokenModel>, rest: Result<Seq<TokenModel>, char>) -> Result<
    Seq<TokenModel>,
    char,
> {
    match rest {
        Ok(ts) => Ok(done + ts),
        Err(c) => Err(c),
    }
}

proof fn lemma_lex_concat_step(
    done: Seq<Token>,
    tok: Token,
    rest: Result<Seq<TokenModel>, char>,
)
    ensures
        lex_concat(tokens_model(done), lex_cons(token_model(tok), rest)) == lex_concat(
            tokens_model(done.push(tok)),
            rest,
        ),
{
    assert(tokens_model(done.push(tok)) =~= tokens_model(done).push(token_model(tok)));
    match rest {
        Ok(ts) => {
            assert(tokens_model(done) + (seq![token_model(tok)] + ts) =~= tokens_model(
                done.push(tok),
            ) + ts);
        },
        Err(_) => {},
    }
}

/// Nonempty text made of decimal digits only.
pub open spec fn digit_text(t: Seq<char>) -> bool {
    t.len() >= 1 && (forall|j: int| 0 <= j < t.len() ==> spec_is_digit(t[j]))
}

/// What the parser may assume of a lexed token stream: it is nonempty,
/// exactly its last token is `EOF`, and every `Number` token holds a
/// nonempty run of digits.
pub open spec fn tokens_wf(ts: Seq<TokenModel>) -> bool {
    &&& ts.len() >= 1
    &&& ts[ts.len() - 1].kind == TokenType::EOF
    &&& (forall|k: int| 0 <= k < ts.len() - 1 ==> ts[k].kind != TokenType::EOF)
    &&& (forall|k: int|
        0 <= k < ts.len() && ts[k].kind == TokenType::Number ==> digit_text(ts[k].text))
}

proof fn lemma_tokens_wf_cons(t: TokenModel, ts: Seq<TokenModel>)
    requires
        tokens_wf(ts),
        t.kind != TokenType::EOF,
        t.kind == TokenType::Number ==> digit_text(t.text),
    ensures
        tokens_wf(seq![t] + ts),
{
    let all = seq![t] + ts;
    assert(all[all.len() - 1] == ts[ts.len() - 1]);
    assert forall|k: int| 0 <= k < all.len() - 1 implies all[k].kind != TokenType::EOF by {
        if k >= 1 {
            assert(all[k] == ts[k - 1]);
        }
    }
    assert forall|k: int|
        0 <= k < all.len() && all[k].kind == TokenType::Number implies digit_text(all[k].text) by {
        if k >= 1 {
            assert(all[k] == ts[k - 1]);
        }
    }
}

/// Whatever text lexing succeeds on, the token stream it returns is
/// well-formed in the sense of `tokens_wf`.
pub proof fn lemma_spec_lex_wf(s: Seq<char>, i: int)
    ensures
        spec_lex(s, i) matches Ok(ts) ==> tokens_wf(ts),
    decreases s.len() - i,
{
    if i < 0 || i >= s.len() {
        let ts = spec_lex(s, i)->Ok_0;
        assert(ts[0].kind == TokenType::EOF);
    } else {
        let c = s[i];
        if c == '(' || c == ')' || spec_is_operator(c) || c == '=' || c == ';' {
            lemma_spec_lex_wf(s, i + 1);
            if spec_lex(s, i + 1) is Ok {
                lemma_tokens_wf_cons(
                    spec_lex(s, i)->Ok_0[0],
                    spec_lex(s, i + 1)->Ok_0,
                );
            }
        } else if spec_is_digit(c) {
            lemma_digit_run_end(s, i);
            let end = clip(digit_run_end(s, i), i + 1, s.len() as int);
            lemma_spec_lex_wf(s, end);
            if spec_lex(s, end) is Ok {
                let t = TokenModel { text: s.subrange(i, end), kind: TokenType::Number };
                assert(digit_text(t.text)) by {
                    assert(forall|j: int|
                        0 <= j < t.text.len() ==> t.text[j] == s[i + j] && spec_is_digit(
                            s[i + j],
                        ));
                }
                lemma_tokens_wf_cons(t, spec_lex(s, end)->Ok_0);
            }
        } else if alphabetic(c) {
            lemma_alpha_run_end(s, i);
            let end = clip(alpha_run_end(s, i), i + 1, s.len() as int);
            lemma_spec_lex_wf(s, end);
            if spec_lex(s, end) is Ok {
                lemma_tokens_wf_cons(
                    spec_lex(s, i)->Ok_0[0],
                    spec_lex(s, end)->Ok_0,
                );
            }
        } else if spec_is_skippable(c) {
            lemma_spec_lex_wf(s, i + 1);
        }
    }
}

/// The characters of a string, in order.
pub(crate) fn string_chars(s: &String) -> (r: Vec<char>)
    ensures
        r@ == s@,
{
    let n = s.as_str().unicode_len();
    let mut r: Vec<char> = Vec::new();
    let mut j: usize = 0;
    while j < n
        invariant
            n == s@.len(),
            0 <= j <= n,
            r@ == s@.subrange(0, j as int),
        decreases n - j,
    {
        let c = s.as_str().get_char(j);
        r.push(c);
        assert(r@ =~= s@.subrange(0, j + 1 as int));
        j = j + 1;
    }
    assert(r@ =~= s@);
    r
}

/// Lexes the whole source text. Returns exactly the token sequence that
/// `spec_lex` defines, ending in one `EOF` token, or a `LexError`
/// holding the first character that fits no token class.
pub fn tokenize(source_code: String) -> (r: Result<Vec<Token>, InterpError>)
    ensures
        match r {
            Ok(tokens) => spec_lex(source_code@, 0) == Ok::<_, char>(tokens_model(tokens@)),
            Err(e) => {
                &&& spec_lex(source_code@, 0) is Err
                &&& e == (InterpError::LexError { character: spec_lex(source_code@, 0)->Err_0 })
            },
        },
{
    let ghost s = source_code@;
    let chars = string_chars(&source_code);
    let mut tokens: Vec<Token> = Vec::new();
    let mut i: usize = 0;
    proof {
        assert(tokens_model(tokens@) =~= Seq::<TokenModel>::empty());
        assert(spec_lex(s, 0) == lex_concat(tokens_model(tokens@), spec_lex(s, 0))) by {
            match spec_lex(s, 0) {
                Ok(ts) => {
                    assert(Seq::<TokenModel>::empty() + ts =~= ts);
                },
                Err(_) => {},
            }
        }
    }
    while i < chars.len()
        invariant
            chars@ == s,
            source_code@ == s,
            0 <= i <= chars.len(),
            spec_lex(s, 0) == lex_concat(tokens_model(tokens@), spec_lex(s, i as int)),
        decreases chars.len() - i,
    {
        let c = chars[i];
        let ghost done = tokens@;
        if c == '(' {
            let t = token(char_string(c), TokenType::OpenParen);
            proof { lemma_lex_concat_step(done, t, spec_lex(s, i + 1)); }
            tokens.push(t);
            i = i + 1;
        } else if c == ')' {
            let t = token(char_string(c), TokenType::CloseParen);
            proof { lemma_lex_concat_step(done, t, spec_lex(s, i + 1)); }
            tokens.push(t);
            i = i + 1;
        } else if is_operator(c) {
            let t = token(char_string(c), TokenType::BinaryOperator);
            proof { lemma_lex_concat_step(done, t, spec_lex(s, i + 1)); }
            tokens.push(t);
            i = i + 1;
        } else if c == '=' {
            let t = token(char_string(c), TokenType::Equals);
            proof { lemma_lex_concat_step(done, t, spec_lex(s, i + 1)); }
            tokens.push(t);
            i = i + 1;
        } else if c == ';' {
            let t = token(char_string(c), TokenType::Semicolon);
            proof { lemma_lex_concat_step(done, t, spec_lex(s, i + 1)); }
            tokens.push(t);
            i = i + 1;
        } else if is_digit(c) {
            let ghost start = i as int;
            let mut num = String::new();
            while i < chars.len() && is_digit(chars[i])
                invariant
                    chars@ == s,
                    0 <= start <= i <= chars.len(),
                    num@ == s.subrange(start, i as int),
                    digit_run_end(s, start) == digit_run_end(s, i as int),
                decreases chars.len() - i,
            {
                let ch = chars[i];
                push_char(&mut num, ch);
                proof {
                    assert(num@ =~= s.subrange(start, i + 1 as int));
                }
                i = i + 1;
            }
            proof {
                lemma_digit_run_end(s, start);
                assert(digit_run_end(s, i as int) == i as int);
                assert(digit_run_end(s, start) == i as int);
                assert(clip(digit_run_end(s, start), start + 1, s.len() as int) == i as int);
            }
            let t = token(num, TokenType::Number);
            proof { lemma_lex_concat_step(done, t, spec_lex(s, i as int)); }
            tokens.push(t);
        } else if is_alpha(c) {
            let ghost start = i as int;
            let mut ident = String::new();
            while i < chars.len() && is_alpha(chars[i])
                invariant
                    chars@ == s,
                    0 <= start <= i <= chars.len(),
                    ident@ == s.subrange(start, i as int),
                    alpha_run_end(s, start) == alpha_run_end(s, i as int),
                decreases chars.len() - i,
            {
                let ch = chars[i];
                push_char(&mut ident, ch);
                proof {
                    assert(ident@ =~= s.subrange(start, i + 1 as int));
                }
                i = i + 1;
            }
            proof {
                lemma_alpha_run_end(s, start);
                assert(alpha_run_end(s, i as int) == i as int);
                assert(alpha_run_end(s, start) == i as int);
                assert(clip(alpha_run_end(s, start), start + 1, s.len() as int) == i as int);
            }
            let kind = keyword_type(&ident);
            let t = token(ident, kind);
            proof { lemma_lex_concat_step(done, t, spec_lex(s, i as int)); }
            tokens.push(t);
        } else if is_skippable(c) {
            i = i + 1;
        } else {
            proof {
                assert(spec_lex(s, i as int) == Err::<Seq<TokenModel>, char>(c));
                assert(spec_lex(s, 0) == Err::<Seq<TokenModel>, char>(c));
            }
            return Err(InterpError::LexError { character: c });
        }
    }
    let t = token(String::from_str("EndOfFile"), TokenType::EOF);
    proof {
        lemma_lex_concat_step(tokens@, t, Ok(Seq::<TokenModel>::empty()));
        assert(spec_lex(s, i as int) == lex_cons(token_model(t), Ok::<_, char>(Seq::<TokenModel>::empty())));
        assert(seq![token_model(t)] + Seq::<TokenModel>::empty() =~= seq![token_model(t)]);
    }
    tokens.push(t);
    proof {
        match spec_lex(s, 0) {
            Ok(ts) => {
                assert(ts =~= tokens_model(tokens@) + Seq::<TokenModel>::empty());
                assert(tokens_model(tokens@) + Seq::<TokenModel>::empty() =~= tokens_model(tokens@));
            },
            Err(_) => {},
        }
    }
    Ok(tokens)
}

/// A one-character string.
fn char_string(c: char) -> (r: String)
    ensures
        r@ == seq![c],
{
    let mut r = String::new();
    push_char(&mut r, c);
    proof {
        assert(r@ =~= seq![c]);
    }
    r
}

} // verus!
