//! The lexer: splits source text at separator characters and
//! classifies each piece as a keyword, a number literal, an
//! identifier, or a punctuation token.  Text after the last separator
//! is not part of any token.

use vstd::prelude::*;
use vstd::string::StrSliceExecFns;

verus! {

/// The primitive type keywords of the language.
#[derive(Debug, PartialEq, Clone, Copy)]
pub enum Primitives {
    Number,
}

/// The builtin function keywords of the language.
#[derive(Debug, PartialEq, Clone, Copy)]
pub enum BuiltIns {
    Print,
}

/// The comparison operators of the language.
#[derive(Debug, PartialEq, Clone, Copy)]
pub enum Comparisons {
    Equal,
    GreaterThan,
}

/// One token of the source text.
#[derive(Debug, PartialEq)]
pub enum Token {
    Identifier(String),
    ValueNumber(u64),
    Assignment,
    Plus,
    Minus,
    Multiply,
    Semicolon,
    Colon,
    Comma,
    OpenParan,
    ClosingParan,
    Primitive(Primitives),
    Builtin(BuiltIns),
    If,
    While,
    OpenCurly,
    ClosingCurly,
    Comparison(Comparisons),
    Function,
    Return,
    Arrow,
}

/// Specification-level mirror of [`Token`].
#[verifier::ext_equal]
pub enum TokenV {
    Identifier(Seq<char>),
    ValueNumber(u64),
    Assignment,
    Plus,
    Minus,
    Multiply,
    Semicolon,
    Colon,
    Comma,
    OpenParan,
    ClosingParan,
    Primitive(Primitives),
    Builtin(BuiltIns),
    If,
    While,
    OpenCurly,
    ClosingCurly,
    Comparison(Comparisons),
    Function,
    Return,
    Arrow,
}

impl View for Token {
    type V = TokenV;

    open spec fn view(&self) -> TokenV {
        match self {
            Token::Identifier(s) => TokenV::Identifier(s@),
            Token::ValueNumber(n) => TokenV::ValueNumber(*n),
            Token::Assignment => TokenV::Assignment,
            Token::Plus => TokenV::Plus,
            Token::Minus => TokenV::Minus,
            Token::Multiply => TokenV::Multiply,
            Token::Semicolon => TokenV::Semicolon,
            Token::Colon => TokenV::Colon,
            Token::Comma => TokenV::Comma,
            Token::OpenParan => TokenV::OpenParan,
            Token::ClosingParan => TokenV::ClosingParan,
            Token::Primitive(p) => TokenV::Primitive(*p),
            Token::Builtin(b) => TokenV::Builtin(*b),
            Token::If => TokenV::If,
            Token::While => TokenV::While,
            Token::OpenCurly => TokenV::OpenCurly,
            Token::ClosingCurly => TokenV::ClosingCurly,
            Token::Comparison(c) => TokenV::Comparison(*c),
            Token::Function => TokenV::Function,
            Token::Return => TokenV::Return,
            Token::Arrow => TokenV::Arrow,
        }
    }
}

/// The views of a sequence of tokens.
pub open spec fn token_seq_view(s: Seq<Token>) -> Seq<TokenV>
    decreases s,
{
    if s.len() == 0 {
        Seq::empty()
    } else {
        token_seq_view(s.drop_last()).push(s.last()@)
    }
}

pub broadcast proof fn lemma_token_seq_view_props(s: Seq<Token>)
    ensures
        #[trigger] token_seq_view(s).len() == s.len(),
        forall|i: int| 0 <= i < s.len() ==> #[trigger] token_seq_view(s)[i] == s[i]@,
    decreases s,
{
    if s.len() > 0 {
        lemma_token_seq_view_props(s.drop_last());
    }
}

/// The characters at which the source text is split.
pub open spec fn is_separator(c: char) -> bool {
    c == ' ' || c == '\n' || c == ':' || c == ';' || c == ',' || c == '(' || c == ')' || c == '{'
        || c == '}'
}

/// The token a separator character itself denotes; spaces and
/// newlines denote none.
pub open spec fn sep_token(c: char) -> Option<TokenV> {
    if c == ';' {
        Some(TokenV::Semicolon)
    } else if c == ':' {
        Some(TokenV::Colon)
    } else if c == ',' {
        Some(TokenV::Comma)
    } else if c == '(' {
        Some(TokenV::OpenParan)
    } else if c == ')' {
        Some(TokenV::ClosingParan)
    } else if c == '{' {
        Some(TokenV::OpenCurly)
    } else if c == '}' {
        Some(TokenV::ClosingCurly)
    } else {
        None
    }
}

/// Horizontal whitespace stripped from the front of a word.
pub open spec fn is_space(c: char) -> bool {
    c == ' ' || c == '\t' || c == '\r'
}

/// The word with its leading whitespace removed.
pub open spec fn trim_start(s: Seq<char>) -> Seq<char>
    decreases s.len(),
{
    if s.len() > 0 && is_space(s[0]) {
        trim_start(s.drop_first())
    } else {
        s
    }
}

pub open spec fn is_digit(c: char) -> bool {
    48 <= c as u32 <= 57
}

pub open spec fn digit_val(c: char) -> nat {
    (c as u32 - 48) as nat
}

pub open spec fn all_digits(s: Seq<char>) -> bool {
    forall|i: int| 0 <= i < s.len() ==> is_digit(#[trigger] s[i])
}

/// The value a digit string denotes.
pub open spec fn digits_val(s: Seq<char>) -> nat
    decreases s.len(),
{
    if s.len() == 0 {
        0
    } else {
        digits_val(s.drop_last()) * 10 + digit_val(s.last())
    }
}

/// A number literal may carry one leading plus sign.
pub open spec fn numeric_body(s: Seq<char>) -> Seq<char> {
    if s.len() > 0 && s[0] == '+' {
        s.drop_first()
    } else {
        s
    }
}

/// Whether a word is a 64-bit number literal.
pub open spec fn is_number_word(s: Seq<char>) -> bool {
    numeric_body(s).len() > 0 && all_digits(numeric_body(s)) && digits_val(numeric_body(s))
        <= u64::MAX
}

/// The token a non-separator word denotes: a keyword, a number
/// literal, an identifier, or (for an empty word) none.
pub open spec fn classify_word(s: Seq<char>) -> Option<TokenV> {
    if s == "="@ {
        Some(TokenV::Assignment)
    } else if s == "+"@ {
        Some(TokenV::Plus)
    } else if s == "-"@ {
        Some(TokenV::Minus)
    } else if s == "*"@ {
        Some(TokenV::Multiply)
    } else if s == "number"@ {
        Some(TokenV::Primitive(Primitives::Number))
    } else if s == "print"@ {
        Some(TokenV::Builtin(BuiltIns::Print))
    } else if s == "if"@ {
        Some(TokenV::If)
    } else if s == "while"@ {
        Some(TokenV::While)
    } else if s == "=="@ {
        Some(TokenV::Comparison(Comparisons::Equal))
    } else if s == ">"@ {
        Some(TokenV::Comparison(Comparisons::GreaterThan))
    } else if s == "func"@ {
        Some(TokenV::Function)
    } else if s == "->"@ {
        Some(TokenV::Arrow)
    } else if s == "return"@ {
        Some(TokenV::Return)
    } else if s.len() > 0 {
        if is_number_word(s) {
            Some(TokenV::ValueNumber(digits_val(numeric_body(s)) as u64))
        } else {
            Some(TokenV::Identifier(s))
        }
    } else {
        None
    }
}

/// The position of the first separator in `s`, or `-1` if there is
/// none.
pub open spec fn find_sep(s: Seq<char>) -> int
    decreases s.len(),
{
    if s.len() == 0 {
        -1
    } else if is_separator(s[0]) {
        0
    } else {
        let r = find_sep(s.drop_first());
        if r == -1 {
            -1
        } else {
            r + 1
        }
    }
}

/// The token stream of the source text: at each separator, the word
/// before it (trimmed) and the separator itself each contribute their
/// token, if any; text after the last separator contributes nothing.
pub open spec fn tokenize_spec(s: Seq<char>) -> Seq<TokenV>
    decreases s.len(),
{
    let i = find_sep(s);
    if 0 <= i < s.len() {
        (match classify_word(trim_start(s.take(i))) {
            Some(t) => seq![t],
            None => Seq::empty(),
        }) + (match sep_token(s[i]) {
            Some(t) => seq![t],
            None => Seq::empty(),
        }) + tokenize_spec(s.skip(i + 1))
    } else {
        Seq::empty()
    }
}

proof fn lemma_find_sep_at(s: Seq<char>, k: int)
    requires
        0 <= k < s.len(),
        is_separator(s[k]),
        forall|j: int| 0 <= j < k ==> !is_separator(#[trigger] s[j]),
    ensures
        find_sep(s) == k,
    decreases s.len(),
{
    if k > 0 {
        assert(forall|j: int|
            0 <= j < k - 1 ==> s.drop_first()[j] == #[trigger] s[j + 1]);
        lemma_find_sep_at(s.drop_first(), k - 1);
    }
}

proof fn lemma_find_sep_none(s: Seq<char>)
    requires
        forall|j: int| 0 <= j < s.len() ==> !is_separator(#[trigger] s[j]),
    ensures
        find_sep(s) == -1,
    decreases s.len(),
{
    if s.len() > 0 {
        assert(forall|j: int|
            0 <= j < s.len() - 1 ==> s.drop_first()[j] == #[trigger] s[j + 1]);
        lemma_find_sep_none(s.drop_first());
    }
}

proof fn lemma_trim_start_skip(s: Seq<char>, k: int)
    requires
        0 <= k <= s.len(),
        forall|j: int| 0 <= j < k ==> is_space(#[trigger] s[j]),
        k == s.len() || !is_space(s[k]),
    ensures
        trim_start(s) == s.skip(k),
    decreases k,
{
    if k == 0 {
        assert(s.skip(0) =~= s);
    } else {
        assert(is_space(s[0]));
        assert(forall|j: int|
            0 <= j < k - 1 ==> s.drop_first()[j] == #[trigger] s[j + 1]);
        lemma_trim_start_skip(s.drop_first(), k - 1);
        assert(s.drop_first().skip(k - 1) =~= s.skip(k));
    }
}

/// Appending one more digit multiplies the value by ten and adds it.
proof fn lemma_digits_val_take(s: Seq<char>, i: int)
    requires
        0 <= i < s.len(),
    ensures
        digits_val(s.take(i + 1)) == digits_val(s.take(i)) * 10 + digit_val(s[i]),
{
    assert(s.take(i + 1).drop_last() =~= s.take(i));
    assert(s.take(i + 1).last() == s[i]);
}

/// A digit string is worth at least any of its prefixes.
proof fn lemma_digits_val_prefix(s: Seq<char>, i: int)
    requires
        0 <= i <= s.len(),
    ensures
        digits_val(s.take(i)) <= digits_val(s),
    decreases s.len() - i,
{
    if i == s.len() {
        assert(s.take(i) =~= s);
    } else {
        lemma_digits_val_take(s, i);
        lemma_digits_val_prefix(s, i + 1);
    }
}

fn str_eq(a: &str, b: &str) -> (r: bool)
    ensures
        r == (a@ == b@),
{
    let la = a.unicode_len();
    let lb = b.unicode_len();
    if la != lb {
        return false;
    }
    let mut i: usize = 0;
    while i < la
        invariant
            la == a@.len(),
            la == b@.len(),
            i <= la,
            forall|j: int| 0 <= j < i ==> a@[j] == b@[j],
        decreases la - i,
    {
        if a.get_char(i) != b.get_char(i) {
            return false;
        }
        i = i + 1;
    }
    proof {
        assert(a@ =~= b@);
    }
    true
}

/// Parses a word as a 64-bit number literal: optionally one plus
/// sign, then at least one decimal digit, the value in range.
fn parse_number(word: &str) -> (r: Option<u64>)
    ensures
        match r {
            Some(v) => is_number_word(word@) && v == digits_val(numeric_body(word@)),
            None => !is_number_word(word@),
        },
{
    let n = word.unicode_len();
    let mut idx: usize = 0;
    if n > 0 && word.get_char(0) == '+' {
        idx = 1;
    }
    if idx == n {
        return None;
    }
    let ghost body = numeric_body(word@);
    let ghost base = idx as int;
    proof {
        assert(body =~= word@.skip(base));
    }
    let mut val: u64 = 0;
    let mut i: usize = idx;
    while i < n
        invariant
            base <= i <= n,
            n == word@.len(),
            base == 0 || base == 1,
            base == 1 ==> word@[0] == '+',
            base == 0 ==> !(word@.len() > 0 && word@[0] == '+'),
            body == numeric_body(word@),
            body == word@.skip(base),
            all_digits(body.take(i - base)),
            val == digits_val(body.take(i - base)),
        decreases n - i,
    {
        let c = word.get_char(i);
        let u = c as u32;
        if u < 48 || u > 57 {
            proof {
                assert(body[i - base] == word@[i as int]);
                assert(!is_digit(body[i - base]));
            }
            return None;
        }
        let d = (u - 48) as u64;
        let stepped = match val.checked_mul(10) {
            Some(v) => v.checked_add(d),
            None => None,
        };
        match stepped {
            Some(v) => {
                val = v;
            },
            None => {
                proof {
                    assert(body[i - base] == word@[i as int]);
                    lemma_digits_val_take(body, i - base);
                    lemma_digits_val_prefix(body, i - base + 1);
                    assert(digits_val(body) > u64::MAX);
                }
                return None;
            },
        }
        proof {
            assert(body[i - base] == word@[i as int]);
            lemma_digits_val_take(body, i - base);
            assert(body.take(i - base + 1).drop_last() =~= body.take(i - base));
            assert(all_digits(body.take(i - base + 1)));
        }
        i = i + 1;
    }
    proof {
        assert(body.take(n - base) =~= body);
    }
    Some(val)
}

/// Classifies one trimmed word.
fn classify(word: &str) -> (r: Option<Token>)
    ensures
        match r {
            Some(t) => classify_word(word@) is Some && t@ == classify_word(word@)->0,
            None => classify_word(word@) is None,
        },
{
    if str_eq(word, "=") {
        Some(Token::Assignment)
    } else if str_eq(word, "+") {
        Some(Token::Plus)
    } else if str_eq(word, "-") {
        Some(Token::Minus)
    } else if str_eq(word, "*") {
        Some(Token::Multiply)
    } else if str_eq(word, "number") {
        Some(Token::Primitive(Primitives::Number))
    } else if str_eq(word, "print") {
        Some(Token::Builtin(BuiltIns::Print))
    } else if str_eq(word, "if") {
        Some(Token::If)
    } else if str_eq(word, "while") {
        Some(Token::While)
    } else if str_eq(word, "==") {
        Some(Token::Comparison(Comparisons::Equal))
    } else if str_eq(word, ">") {
        Some(Token::Comparison(Comparisons::GreaterThan))
    } else if str_eq(word, "func") {
        Some(Token::Function)
    } else if str_eq(word, "->") {
        Some(Token::Arrow)
    } else if str_eq(word, "return") {
        Some(Token::Return)
    } else if word.unicode_len() > 0 {
        match parse_number(word) {
            Some(v) => Some(Token::ValueNumber(v)),
            None => Some(Token::Identifier(word.to_owned())),
        }
    } else {
        None
    }
}

/// Splits the source text into its token stream.
#[verifier::loop_isolation(false)]
#[verifier::rlimit(100)]
pub fn tokenize(content: String) -> (r: Vec<Token>)
    ensures
        token_seq_view(r@) == tokenize_spec(content@),
{
    broadcast use lemma_token_seq_view_props;

    let text = content.as_str();
    let n = text.unicode_len();
    let ghost full = text@;
    let mut result: Vec<Token> = Vec::new();
    let mut start: usize = 0;
    let mut i: usize = 0;
    proof {
        assert(full.skip(0) =~= full);
    }
    while i < n
        invariant
            start <= i <= n,
            n == full.len(),
            forall|j: int| start <= j < i ==> !is_separator(#[trigger] full[j]),
            tokenize_spec(full) == token_seq_view(result@) + tokenize_spec(
                full.skip(start as int),
            ),
        decreases n - i,
    {
        let c = text.get_char(i);
        if c == ' ' || c == '\n' || c == ':' || c == ';' || c == ',' || c == '(' || c == ')'
            || c == '{' || c == '}' {
            let ghost rest = full.skip(start as int);
            proof {
                assert(forall|j: int|
                    0 <= j < i - start ==> rest[j] == #[trigger] full[j + start]);
                assert(rest[i - start] == full[i as int]);
                lemma_find_sep_at(rest, i - start);
            }
            let mut w = start;
            while w < i
                invariant
                    start <= w <= i <= n,
                    n == full.len(),
                    forall|j: int| start <= j < w ==> is_space(#[trigger] full[j]),
                decreases i - w,
            {
                let wc = text.get_char(w);
                if wc == ' ' || wc == '\t' || wc == '\r' {
                    w = w + 1;
                } else {
                    break;
                }
            }
            let ghost word_raw = full.subrange(start as int, i as int);
            proof {
                assert(word_raw =~= rest.take(i - start));
                assert(forall|j: int|
                    0 <= j < i - start ==> word_raw[j] == #[trigger] full[j + start]);
                if w < i {
                    assert(!is_space(full[w as int]));
                    assert(!is_space(word_raw[w - start]));
                }
                lemma_trim_start_skip(word_raw, w - start);
                assert(word_raw.skip(w - start) =~= full.subrange(w as int, i as int));
            }
            let word = text.substring_char(w, i);
            match classify(word) {
                Some(t) => {
                    result.push(t);
                },
                None => {},
            }
            match sep_char_token(c) {
                Some(t) => {
                    result.push(t);
                },
                None => {},
            }
            proof {
                assert(rest.skip(i - start + 1) =~= full.skip(i + 1));
                assert(tokenize_spec(full) =~= token_seq_view(result@) + tokenize_spec(
                    full.skip(i + 1),
                ));
            }
            start = i + 1;
        }
        i = i + 1;
    }
    proof {
        let rest = full.skip(start as int);
        assert(forall|j: int|
            0 <= j < rest.len() ==> rest[j] == #[trigger] full[j + start]);
        lemma_find_sep_none(rest);
        assert(tokenize_spec(rest) =~= Seq::<TokenV>::empty());
        assert(token_seq_view(result@) =~= tokenize_spec(full));
    }
    result
}

/// The token a separator character denotes.
fn sep_char_token(c: char) -> (r: Option<Token>)
    ensures
        match r {
            Some(t) => sep_token(c) is Some && t@ == sep_token(c)->0,
            None => sep_token(c) is None,
        },
{
    if c == ';' {
        Some(Token::Semicolon)
    } else if c == ':' {
        Some(Token::Colon)
    } else if c == ',' {
        Some(Token::Comma)
    } else if c == '(' {
        Some(Token::OpenParan)
    } else if c == ')' {
        Some(Token::ClosingParan)
    } else if c == '{' {
        Some(Token::OpenCurly)
    } else if c == '}' {
        Some(Token::ClosingCurly)
    } else {
        None
    }
}


/// A cursor over a token sequence, replacing iterator-based lookahead:
/// `peek` inspects the next token, `bump` consumes it.
pub struct TokenStream<'a> {
    tokens: &'a [Token],
    pos: usize,
}

impl<'a> TokenStream<'a> {
    /// The tokens not yet consumed.
    pub closed spec fn view(&self) -> Seq<TokenV> {
        token_seq_view(self.tokens@.skip(self.pos as int))
    }

    pub closed spec fn wf(self) -> bool {
        self.pos <= self.tokens@.len()
    }

    pub fn new(tokens: &'a [Token]) -> (r: TokenStream<'a>)
        ensures
            r.wf(),
            r@ == token_seq_view(tokens@),
    {
        let r = TokenStream { tokens, pos: 0 };
        proof {
            assert(tokens@.skip(0) =~= tokens@);
        }
        r
    }

    /// The next token, if any, without consuming it.
    pub fn peek(&self) -> (r: Option<&'a Token>)
        requires
            self.wf(),
        ensures
            match r {
                Some(t) => self@.len() > 0 && t@ == self@[0],
                None => self@.len() == 0,
            },
    {
        broadcast use lemma_token_seq_view_props;

        if self.pos < self.tokens.len() {
            proof {
                assert(self.tokens@.skip(self.pos as int)[0] == self.tokens@[self.pos as int]);
            }
            Some(&self.tokens[self.pos])
        } else {
            proof {
                assert(self.tokens@.skip(self.pos as int) =~= Seq::<Token>::empty());
            }
            None
        }
    }

    /// Consumes the next token.
    pub fn bump(&mut self)
        requires
            old(self).wf(),
            old(self)@.len() > 0,
        ensures
            final(self).wf(),
            final(self)@ == old(self)@.drop_first(),
    {
        broadcast use lemma_token_seq_view_props;

        let n = self.tokens.len();
        proof {
            assert(token_seq_view(self.tokens@.skip(self.pos as int)).len() == self.tokens@.skip(
                self.pos as int,
            ).len());
            assert(self.pos < n);
        }
        self.pos = self.pos + 1;
        proof {
            let old_rest = self.tokens@.skip(self.pos as int - 1);
            let new_rest = self.tokens@.skip(self.pos as int);
            assert(token_seq_view(new_rest).len() == new_rest.len());
            assert(token_seq_view(old_rest).len() == old_rest.len());
            assert(new_rest =~= old_rest.drop_first());
            assert forall|k: int| 0 <= k < new_rest.len() implies token_seq_view(new_rest)[k]
                == token_seq_view(old_rest).drop_first()[k] by {
                assert(token_seq_view(new_rest)[k] == new_rest[k]@);
                assert(token_seq_view(old_rest)[k + 1] == old_rest[k + 1]@);
            }
            assert(token_seq_view(new_rest) =~= token_seq_view(old_rest).drop_first());
        }
    }
}

} // verus!
