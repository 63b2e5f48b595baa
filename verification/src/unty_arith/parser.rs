use crate::parser::Parser as AbstractParser;
use crate::unty_arith::grammar::{lemma_read_is_sentence, lemma_sentences_are_the_terms};
use crate::unty_arith::term::Term;
use vstd::prelude::*;

verus! {

/// The parser of the untyped arithmetic calculus.
pub struct Parser;

/// The words of the language.
#[derive(Clone, Copy, Debug, PartialEq, Eq, Structural)]
pub enum Token {
    LitTrue,
    LitFalse,
    LitZero,
    KwIf,
    KwThen,
    KwElse,
    KwSucc,
    KwPred,
    KwIsZero,
}

/// What the parser looks for at some place among the tokens.
#[derive(Clone, Copy, Debug, PartialEq, Eq, Structural)]
pub enum Expectation {
    /// The first token of a term.
    Term,
    /// The given token.
    Token(Token),
}

/// Why a text stands for no term. `Text` is the type of the words quoted.
#[derive(Debug)]
pub enum Failure<Text> {
    /// A word of the text is no token.
    UnknownToken(Text),
    /// The token found cannot stand where it does.
    UnexpectedToken { expected: Expectation, found: Token },
    /// The tokens end where one more is needed.
    UnexpectedEnd { expected: Expectation },
    /// A token follows the term that the text begins with.
    TrailingToken { found: Token },
}

impl View for Failure<String> {
    type V = Failure<Seq<char>>;

    open spec fn view(&self) -> Failure<Seq<char>> {
        match *self {
            Failure::UnknownToken(word) => Failure::UnknownToken(word@),
            Failure::UnexpectedToken { expected, found } => Failure::UnexpectedToken {
                expected,
                found,
            },
            Failure::UnexpectedEnd { expected } => Failure::UnexpectedEnd { expected },
            Failure::TrailingToken { found } => Failure::TrailingToken { found },
        }
    }
}

/// A word between double quotes.
pub open spec fn quoted(word: Seq<char>) -> Seq<char> {
    "\""@ + word + "\""@
}

impl Expectation {
    /// What is looked for, in words: `a term`, or the token in quotes.
    pub open spec fn text(self) -> Seq<char> {
        match self {
            Expectation::Term => "a term"@,
            Expectation::Token(token) => quoted(token.spelling()),
        }
    }
}

impl Failure<Seq<char>> {
    /// What went wrong, with what was looked for and what was found.
    pub open spec fn message(self) -> Seq<char> {
        match self {
            Failure::UnknownToken(word) => "unknown token: "@ + quoted(word),
            Failure::UnexpectedToken { expected, found } => "unexpected token: expected "@
                + expected.text() + ", found "@ + quoted(found.spelling()),
            Failure::UnexpectedEnd { expected } => "unexpected end of token stream: expected "@
                + expected.text(),
            Failure::TrailingToken { found } => "end of token stream expected: found "@ + quoted(
                found.spelling(),
            ),
        }
    }
}

/// The characters that separate words, which are the whitespace of ASCII:
/// space, tab, line feed, vertical tab, form feed and carriage return.
pub open spec fn is_space(c: char) -> bool {
    c == ' ' || c == '\t' || c == '\n' || c == '\x0B' || c == '\x0C' || c == '\r'
}

/// Where the first word at or after `i` starts, or the length of `s` if
/// only spaces are left.
pub open spec fn word_start(s: Seq<char>, i: int) -> int
    decreases s.len() - i,
{
    if 0 <= i < s.len() && is_space(s[i]) {
        word_start(s, i + 1)
    } else {
        i
    }
}

/// Where the word that covers `i` ends: at the next space or at the end of `s`.
pub open spec fn word_end(s: Seq<char>, i: int) -> int
    decreases s.len() - i,
{
    if 0 <= i < s.len() && !is_space(s[i]) {
        word_end(s, i + 1)
    } else {
        i
    }
}

/// The words of `s` from `i` on: its longest runs of characters that are no
/// spaces, in their order.
pub open spec fn words_from(s: Seq<char>, i: int) -> Seq<Seq<char>>
    decreases s.len() - i,
{
    let start = word_start(s, i);
    let end = word_end(s, start);
    if 0 <= i <= start < end <= s.len() {
        seq![s.subrange(start, end)] + words_from(s, end)
    } else {
        Seq::empty()
    }
}

/// The words of `s`.
pub open spec fn words(s: Seq<char>) -> Seq<Seq<char>> {
    words_from(s, 0)
}

impl Token {
    /// How the token is written.
    pub open spec fn spelling(self) -> Seq<char> {
        match self {
            Token::LitTrue => "true"@,
            Token::LitFalse => "false"@,
            Token::LitZero => "0"@,
            Token::KwIf => "if"@,
            Token::KwThen => "then"@,
            Token::KwElse => "else"@,
            Token::KwSucc => "succ"@,
            Token::KwPred => "pred"@,
            Token::KwIsZero => "iszero"@,
        }
    }

    /// The token that is written as `word`, if there is one.
    pub open spec fn of_word(word: Seq<char>) -> Option<Token> {
        if word == Token::LitTrue.spelling() {
            Some(Token::LitTrue)
        } else if word == Token::LitFalse.spelling() {
            Some(Token::LitFalse)
        } else if word == Token::LitZero.spelling() {
            Some(Token::LitZero)
        } else if word == Token::KwIf.spelling() {
            Some(Token::KwIf)
        } else if word == Token::KwThen.spelling() {
            Some(Token::KwThen)
        } else if word == Token::KwElse.spelling() {
            Some(Token::KwElse)
        } else if word == Token::KwSucc.spelling() {
            Some(Token::KwSucc)
        } else if word == Token::KwPred.spelling() {
            Some(Token::KwPred)
        } else if word == Token::KwIsZero.spelling() {
            Some(Token::KwIsZero)
        } else {
            None
        }
    }
}

/// The tokens that `words` are, or the failure at the first word that is none.
pub open spec fn lex(words: Seq<Seq<char>>) -> Result<Seq<Token>, Failure<Seq<char>>>
    decreases words.len(),
{
    if words.len() == 0 {
        Ok(Seq::empty())
    } else {
        match lex(words.drop_last()) {
            Ok(tokens) => match Token::of_word(words.last()) {
                Some(token) => Ok(tokens.push(token)),
                None => Err(Failure::UnknownToken(words.last())),
            },
            Err(failure) => Err(failure),
        }
    }
}

/// The tokens that a term is written with, in their order.
///
/// A term is a literal; or `succ`, `pred` or `iszero` and a term; or `if`, a
/// term, `then`, a term, `else` and a term.
pub open spec fn sentence(t: Term) -> Seq<Token>
    decreases t,
{
    match t {
        Term::True => seq![Token::LitTrue],
        Term::False => seq![Token::LitFalse],
        Term::Zero => seq![Token::LitZero],
        Term::IfElse { condition, true_br, false_br } => seq![Token::KwIf] + sentence(*condition)
            + seq![Token::KwThen] + sentence(*true_br) + seq![Token::KwElse] + sentence(
            *false_br,
        ),
        Term::Succ(operand) => seq![Token::KwSucc] + sentence(*operand),
        Term::Pred(operand) => seq![Token::KwPred] + sentence(*operand),
        Term::IsZero(operand) => seq![Token::KwIsZero] + sentence(*operand),
    }
}

/// Why `token` is not found at `i`, if it is not.
pub open spec fn token_missing(tokens: Seq<Token>, i: int, token: Token) -> Option<
    Failure<Seq<char>>,
> {
    if !(0 <= i < tokens.len()) {
        Some(Failure::UnexpectedEnd { expected: Expectation::Token(token) })
    } else if tokens[i] != token {
        Some(Failure::UnexpectedToken { expected: Expectation::Token(token), found: tokens[i] })
    } else {
        None
    }
}

/// The term whose tokens start at `i`, with the place of the token after
/// them, or the failure at the first token that no term can have there, the
/// tokens taken from left to right.
pub open spec fn term_at(tokens: Seq<Token>, i: int) -> Result<(Term, int), Failure<Seq<char>>>
    decreases tokens.len() - i,
{
    if !(0 <= i < tokens.len()) {
        Err(Failure::UnexpectedEnd { expected: Expectation::Term })
    } else {
        match tokens[i] {
            Token::LitTrue => Ok((Term::True, i + 1)),
            Token::LitFalse => Ok((Term::False, i + 1)),
            Token::LitZero => Ok((Term::Zero, i + 1)),
            Token::KwSucc => match term_at(tokens, i + 1) {
                Ok((t, end)) => Ok((Term::Succ(Box::new(t)), end)),
                Err(failure) => Err(failure),
            },
            Token::KwPred => match term_at(tokens, i + 1) {
                Ok((t, end)) => Ok((Term::Pred(Box::new(t)), end)),
                Err(failure) => Err(failure),
            },
            Token::KwIsZero => match term_at(tokens, i + 1) {
                Ok((t, end)) => Ok((Term::IsZero(Box::new(t)), end)),
                Err(failure) => Err(failure),
            },
            Token::KwIf => match term_at(tokens, i + 1) {
                Ok((condition, then_at)) => match token_missing(tokens, then_at, Token::KwThen) {
                    None => match term_at(tokens, after(then_at, i)) {
                        Ok((true_br, else_at)) => match token_missing(
                            tokens,
                            else_at,
                            Token::KwElse,
                        ) {
                            None => match term_at(tokens, after(else_at, i)) {
                                Ok((false_br, end)) => Ok(
                                    (
                                        Term::IfElse {
                                            condition: Box::new(condition),
                                            true_br: Box::new(true_br),
                                            false_br: Box::new(false_br),
                                        },
                                        end,
                                    ),
                                ),
                                Err(failure) => Err(failure),
                            },
                            Some(failure) => Err(failure),
                        },
                        Err(failure) => Err(failure),
                    },
                    Some(failure) => Err(failure),
                },
                Err(failure) => Err(failure),
            },
            Token::KwThen | Token::KwElse => Err(
                Failure::UnexpectedToken { expected: Expectation::Term, found: tokens[i] },
            ),
        }
    }
}

/// The place after the keyword at `at`, which lies behind `i`.
///
/// A term ends behind the place where it starts, so `at` is greater than `i`
/// wherever `term_at` asks; saying so here lets `term_at` be seen to end.
pub open spec fn after(at: int, i: int) -> int {
    if at > i {
        at + 1
    } else {
        i + 1
    }
}

/// The term that the tokens are, or why they are none: the failure of the
/// term at their start, or the first token behind that term.
pub open spec fn term_of(tokens: Seq<Token>) -> Result<Term, Failure<Seq<char>>> {
    match term_at(tokens, 0) {
        Ok((t, end)) => if end < tokens.len() {
            Err(Failure::TrailingToken { found: tokens[end] })
        } else {
            Ok(t)
        },
        Err(failure) => Err(failure),
    }
}

/// The term that `input` stands for, or why it stands for none: the first
/// word that is no token, or else what is wrong with the tokens.
pub open spec fn parsed(input: Seq<char>) -> Result<Term, Failure<Seq<char>>> {
    match lex(words(input)) {
        Ok(tokens) => term_of(tokens),
        Err(failure) => Err(failure),
    }
}

/// A word start lies at or behind the place asked from, within the text, and
/// on a character that is no space unless it is the end of the text.
pub proof fn lemma_word_start(s: Seq<char>, i: int)
    requires
        0 <= i <= s.len(),
    ensures
        i <= word_start(s, i) <= s.len(),
        word_start(s, i) < s.len() ==> !is_space(s[word_start(s, i)]),
        word_start(s, word_start(s, i)) == word_start(s, i),
        words_from(s, word_start(s, i)) == words_from(s, i),
    decreases s.len() - i,
{
    if i < s.len() && is_space(s[i]) {
        lemma_word_start(s, i + 1);
        lemma_word_end(s, word_start(s, i));
    }
}

/// A word end lies at or behind the place asked from, within the text, and
/// behind it if a word is there.
pub proof fn lemma_word_end(s: Seq<char>, i: int)
    requires
        0 <= i <= s.len(),
    ensures
        i <= word_end(s, i) <= s.len(),
        i < s.len() && !is_space(s[i]) ==> i < word_end(s, i),
        word_end(s, i) < s.len() ==> is_space(s[word_end(s, i)]),
        forall|k: int| i <= k < word_end(s, i) ==> !is_space(#[trigger] s[k]),
    decreases s.len() - i,
{
    if i < s.len() && !is_space(s[i]) {
        lemma_word_end(s, i + 1);
    }
}

/// Every word has a character, and none of its characters is a space.
pub proof fn lemma_words_hold_no_space(s: Seq<char>, i: int, n: int)
    requires
        0 <= i <= s.len(),
        0 <= n < words_from(s, i).len(),
    ensures
        words_from(s, i)[n].len() >= 1,
        forall|k: int| 0 <= k < words_from(s, i)[n].len() ==> !is_space(#[trigger] words_from(s, i)[n][k]),
    decreases s.len() - i,
{
    lemma_word_start(s, i);
    let start = word_start(s, i);
    lemma_word_end(s, start);
    let end = word_end(s, start);
    if n > 0 {
        lemma_words_hold_no_space(s, end, n - 1);
    }
}

/// A failure among the first words is the failure of all the words.
pub proof fn lemma_lex_fails_early(first: Seq<Seq<char>>, rest: Seq<Seq<char>>)
    requires
        lex(first) is Err,
    ensures
        lex(first + rest) == lex(first),
    decreases rest.len(),
{
    if rest.len() > 0 {
        lemma_lex_fails_early(first, rest.drop_last());
        assert((first + rest).drop_last() == first + rest.drop_last());
    }
}

/// The characters of `input`, one by one.
fn chars_of(input: &str) -> (chars: Vec<char>)
    ensures
        chars@ == input@,
{
    let mut chars: Vec<char> = Vec::new();
    for c in it: input.chars()
        invariant
            chars@ == it.seq().take(it.index()),
            it.seq() == input@,
    {
        chars.push(c);
    }
    chars
}

/// Tells whether the characters from `from` up to `to` are the text `literal`.
fn same_text(chars: &Vec<char>, from: usize, to: usize, literal: &str) -> (same: bool)
    requires
        from <= to <= chars.len(),
    ensures
        same == (chars@.subrange(from as int, to as int) == literal@),
{
    let len = literal.unicode_len();
    if to - from != len {
        return false;
    }
    let ghost word = chars@.subrange(from as int, to as int);
    let mut i: usize = 0;
    while i < len
        invariant
            from + len == to <= chars.len(),
            i <= len == literal@.len(),
            word == chars@.subrange(from as int, to as int),
            word.take(i as int) == literal@.take(i as int),
        decreases len - i,
    {
        if chars[from + i] != literal.get_char(i) {
            return false;
        }
        i += 1;
    }
    assert(word == word.take(len as int));
    assert(literal@ == literal@.take(len as int));
    true
}

/// Tells whether `c` separates words.
fn separates(c: char) -> (b: bool)
    ensures
        b == is_space(c),
{
    c == ' ' || c == '\t' || c == '\n' || c == '\x0B' || c == '\x0C' || c == '\r'
}

/// Finds the start of the first word at or after `from`.
fn skip_spaces(chars: &Vec<char>, from: usize) -> (start: usize)
    requires
        from <= chars.len(),
    ensures
        start == word_start(chars@, from as int),
        from <= start <= chars.len(),
{
    let mut i = from;
    while i < chars.len() && separates(chars[i])
        invariant
            from <= i <= chars.len(),
            word_start(chars@, i as int) == word_start(chars@, from as int),
        decreases chars.len() - i,
    {
        i += 1;
    }
    i
}

/// Finds the end of the word that starts at `from`.
fn skip_word(chars: &Vec<char>, from: usize) -> (end: usize)
    requires
        from <= chars.len(),
    ensures
        end == word_end(chars@, from as int),
        from <= end <= chars.len(),
{
    let mut i = from;
    while i < chars.len() && !separates(chars[i])
        invariant
            from <= i <= chars.len(),
            word_end(chars@, i as int) == word_end(chars@, from as int),
        decreases chars.len() - i,
    {
        i += 1;
    }
    i
}

impl Token {
    /// How the token is written.
    pub fn as_str(self) -> (s: &'static str)
        ensures
            s@ == self.spelling(),
    {
        match self {
            Token::LitTrue => "true",
            Token::LitFalse => "false",
            Token::LitZero => "0",
            Token::KwIf => "if",
            Token::KwThen => "then",
            Token::KwElse => "else",
            Token::KwSucc => "succ",
            Token::KwPred => "pred",
            Token::KwIsZero => "iszero",
        }
    }

    /// Reads the token that is written as the characters from `from` up to
    /// `to`, if there is one.
    fn read(chars: &Vec<char>, from: usize, to: usize) -> (r: Option<Token>)
        requires
            from <= to <= chars.len(),
        ensures
            r == Token::of_word(chars@.subrange(from as int, to as int)),
    {
        if same_text(chars, from, to, "true") {
            Some(Token::LitTrue)
        } else if same_text(chars, from, to, "false") {
            Some(Token::LitFalse)
        } else if same_text(chars, from, to, "0") {
            Some(Token::LitZero)
        } else if same_text(chars, from, to, "if") {
            Some(Token::KwIf)
        } else if same_text(chars, from, to, "then") {
            Some(Token::KwThen)
        } else if same_text(chars, from, to, "else") {
            Some(Token::KwElse)
        } else if same_text(chars, from, to, "succ") {
            Some(Token::KwSucc)
        } else if same_text(chars, from, to, "pred") {
            Some(Token::KwPred)
        } else if same_text(chars, from, to, "iszero") {
            Some(Token::KwIsZero)
        } else {
            None
        }
    }

    /// Reads the token that is written as `s`.
    pub fn from_str(s: &str) -> (r: Result<Token, ParseError>)
        ensures
            match r {
                Ok(token) => Token::of_word(s@) == Some(token),
                Err(e) => Token::of_word(s@) is None && e@ == Failure::UnknownToken(s@),
            },
    {
        let chars = chars_of(s);
        assert(chars@.subrange(0, chars@.len() as int) == s@);
        match Token::read(&chars, 0, chars.len()) {
            Some(token) => Ok(token),
            None => Err(ParseError::new(Failure::UnknownToken(String::from_str(s)))),
        }
    }
}

impl Parser {
    /// Parses the term that starts at `start` among `tokens`, and says where
    /// the tokens behind it begin.
    pub fn parse_from_tokens(&mut self, tokens: &Vec<Token>, start: usize) -> (r: Result<
        (Term, usize),
        ParseError,
    >)
        ensures
            match r {
                Ok((t, end)) => start < end <= tokens.len() && tokens@.subrange(
                    start as int,
                    end as int,
                ) == sentence(t) && term_at(tokens@, start as int) == Ok::<_, Failure<Seq<char>>>(
                    (t, end as int),
                ),
                Err(e) => term_at(tokens@, start as int) == Err::<(Term, int), _>(e@),
            },
        decreases tokens.len() - start,
    {
        proof {
            if term_at(tokens@, start as int) is Ok {
                lemma_read_is_sentence(tokens@, start as int);
            }
        }
        if start >= tokens.len() {
            return Err(ParseError::new(Failure::UnexpectedEnd { expected: Expectation::Term }));
        }
        match tokens[start] {
            Token::LitFalse => Ok((Term::False, start + 1)),
            Token::LitTrue => Ok((Term::True, start + 1)),
            Token::LitZero => Ok((Term::Zero, start + 1)),
            Token::KwIf => {
                let (condition, then_at) = match self.parse_from_tokens(tokens, start + 1) {
                    Ok(parsed) => parsed,
                    Err(e) => return Err(e),
                };
                match self.expect_token(tokens, then_at, Token::KwThen) {
                    Ok(()) => (),
                    Err(e) => return Err(e),
                };
                let (true_br, else_at) = match self.parse_from_tokens(tokens, then_at + 1) {
                    Ok(parsed) => parsed,
                    Err(e) => return Err(e),
                };
                match self.expect_token(tokens, else_at, Token::KwElse) {
                    Ok(()) => (),
                    Err(e) => return Err(e),
                };
                let (false_br, end) = match self.parse_from_tokens(tokens, else_at + 1) {
                    Ok(parsed) => parsed,
                    Err(e) => return Err(e),
                };
                let term = Term::IfElse {
                    condition: Box::new(condition),
                    true_br: Box::new(true_br),
                    false_br: Box::new(false_br),
                };
                Ok((term, end))
            },
            Token::KwSucc => match self.parse_from_tokens(tokens, start + 1) {
                Ok((nv, end)) => Ok((Term::Succ(Box::new(nv)), end)),
                Err(e) => Err(e),
            },
            Token::KwPred => match self.parse_from_tokens(tokens, start + 1) {
                Ok((nv, end)) => Ok((Term::Pred(Box::new(nv)), end)),
                Err(e) => Err(e),
            },
            Token::KwIsZero => match self.parse_from_tokens(tokens, start + 1) {
                Ok((nv, end)) => Ok((Term::IsZero(Box::new(nv)), end)),
                Err(e) => Err(e),
            },
            found => Err(
                ParseError::new(Failure::UnexpectedToken { expected: Expectation::Term, found }),
            ),
        }
    }

    /// Checks that the token at `at` is `expected`.
    pub fn expect_token(&mut self, tokens: &Vec<Token>, at: usize, expected: Token) -> (r: Result<
        (),
        ParseError,
    >)
        ensures
            match r {
                Ok(_) => token_missing(tokens@, at as int, expected) is None && at < tokens.len(),
                Err(e) => token_missing(tokens@, at as int, expected) == Some(e@),
            },
    {
        if at < tokens.len() {
            let found = tokens[at];
            if found == expected {
                Ok(())
            } else {
                Err(
                    ParseError::new(
                        Failure::UnexpectedToken {
                            expected: Expectation::Token(expected),
                            found,
                        },
                    ),
                )
            }
        } else {
            Err(
                ParseError::new(
                    Failure::UnexpectedEnd { expected: Expectation::Token(expected) },
                ),
            )
        }
    }

    /// Checks that no token is left at `at`.
    pub fn expect_eot(&mut self, tokens: &Vec<Token>, at: usize) -> (r: Result<(), ParseError>)
        ensures
            match r {
                Ok(_) => at >= tokens.len(),
                Err(e) => at < tokens.len() && e@ == (Failure::<Seq<char>>::TrailingToken {
                    found: tokens[at as int],
                }),
            },
    {
        if at < tokens.len() {
            Err(ParseError::new(Failure::TrailingToken { found: tokens[at] }))
        } else {
            Ok(())
        }
    }
}

impl AbstractParser<Term> for Parser {
    type Err = ParseError;

    open spec fn parsed(input: Seq<char>) -> Option<Term> {
        match parsed(input) {
            Ok(t) => Some(t),
            Err(_) => None,
        }
    }

    open spec fn reports(input: Seq<char>, e: ParseError) -> bool {
        parsed(input) == Err::<Term, _>(e@)
    }

    fn parse(&mut self, input: &str) -> (r: Result<Term, Self::Err>)
        ensures
            r matches Ok(t) ==> lex(words(input@)) == Ok::<_, Failure<Seq<char>>>(sentence(t)),
    {
        let chars = chars_of(input);
        let mut tokens: Vec<Token> = Vec::new();
        let ghost mut done: Seq<Seq<char>> = Seq::empty();
        proof {
            lemma_word_start(input@, 0);
        }
        let mut at = skip_spaces(&chars, 0);
        while at < chars.len()
            invariant
                chars@ == input@,
                at <= chars.len(),
                at == word_start(input@, at as int),
                words(input@) == done + words_from(input@, at as int),
                lex(done) == Ok::<_, Failure<Seq<char>>>(tokens@),
            decreases chars.len() - at,
        {
            proof {
                lemma_word_end(input@, at as int);
                lemma_word_start(input@, at as int);
            }
            let end = skip_word(&chars, at);
            let ghost word = input@.subrange(at as int, end as int);
            proof {
                lemma_word_start(input@, end as int);
                assert(done.push(word).drop_last() == done);
                assert(words(input@) == done.push(word) + words_from(input@, end as int));
            }
            match Token::read(&chars, at, end) {
                Some(token) => tokens.push(token),
                None => {
                    proof {
                        lemma_lex_fails_early(done.push(word), words_from(input@, end as int));
                    }
                    let unknown = String::from_str(input.substring_char(at, end));
                    return Err(ParseError::new(Failure::UnknownToken(unknown)));
                },
            }
            proof {
                done = done.push(word);
            }
            at = skip_spaces(&chars, end);
        }
        let (term, end) = match self.parse_from_tokens(&tokens, 0) {
            Ok(parsed) => parsed,
            Err(e) => return Err(e),
        };
        match self.expect_eot(&tokens, end) {
            Ok(()) => {
                proof {
                    lemma_sentences_are_the_terms(tokens@, term);
                }
                Ok(term)
            },
            Err(e) => Err(e),
        }
    }
}

/// The error of a text that stands for no term.
#[derive(Debug)]
pub struct ParseError {
    failure: Failure<String>,
}

impl View for ParseError {
    type V = Failure<Seq<char>>;

    closed spec fn view(&self) -> Failure<Seq<char>> {
        self.failure@
    }
}

impl ParseError {
    /// The error that reports `failure`.
    pub fn new(failure: Failure<String>) -> (e: Self)
        ensures
            e@ == failure@,
    {
        Self { failure }
    }

    /// What the error reports.
    pub fn failure(&self) -> (failure: &Failure<String>)
        ensures
            failure@ == self@,
    {
        &self.failure
    }

    /// What went wrong, with what was looked for and what was found.
    pub fn message(&self) -> (s: String)
        ensures
            s@ == self@.message(),
    {
        match &self.failure {
            Failure::UnknownToken(word) => {
                let mut s = String::from_str("unknown token: ");
                append_quoted(&mut s, word.as_str());
                s
            },
            Failure::UnexpectedToken { expected, found } => {
                let mut s = String::from_str("unexpected token: expected ");
                append_expectation(&mut s, *expected);
                s.append(", found ");
                append_quoted(&mut s, found.as_str());
                s
            },
            Failure::UnexpectedEnd { expected } => {
                let mut s = String::from_str("unexpected end of token stream: expected ");
                append_expectation(&mut s, *expected);
                s
            },
            Failure::TrailingToken { found } => {
                let mut s = String::from_str("end of token stream expected: found ");
                append_quoted(&mut s, found.as_str());
                s
            },
        }
    }

    /// The message, marked as that of a parse error.
    pub fn to_string(&self) -> (s: String)
        ensures
            s@ == "parse error: "@ + self@.message(),
    {
        let mut s = String::from_str("parse error: ");
        s.append(self.message().as_str());
        s
    }
}

/// Writes `word` behind `s`, between double quotes.
fn append_quoted(s: &mut String, word: &str)
    ensures
        final(s)@ == old(s)@ + quoted(word@),
{
    s.append("\"");
    s.append(word);
    s.append("\"");
}

/// Writes behind `s` what `expected` looks for.
fn append_expectation(s: &mut String, expected: Expectation)
    ensures
        final(s)@ == old(s)@ + expected.text(),
{
    match expected {
        Expectation::Term => s.append("a term"),
        Expectation::Token(token) => append_quoted(s, token.as_str()),
    }
}

} // verus!
