use vstd::prelude::*;
use vstd::hash_map::StringHashMap;
use crate::token::{constant, lexemes, Constant, Lexeme, Literal, Token, TokenKind};

verus! {

/// The characters of a text, one by one.
fn characters(source: &str) -> (chars: Vec<char>)
    ensures
        chars@ == source@,
{
    let mut chars: Vec<char> = Vec::new();
    for c in it: source.chars()
        invariant
            it.seq() == source@,
            chars@ == it.seq().subrange(0, it.index() as int),
    {
        chars.push(c);
        assert(chars@ =~= it.seq().subrange(0, it.index() + 1));
    }
    assert(chars@ =~= source@);
    chars
}

/// The errors of the scanner.
#[derive(Debug, Clone, Copy, PartialEq, Eq, Structural)]
pub enum ScanError {
    /// A character that starts no token, and its line.
    UnexpectedCharacter(char, usize),
    /// A string without its closing quote; the line is that of the end of the text.
    UnterminatedString(usize),
}

/// Whether `c` is alphabetic in the sense of Unicode, as `char::is_alphabetic` decides it.
pub uninterp spec fn alphabetic(c: char) -> bool;

/// Whether `c` is alphabetic or numeric in the sense of Unicode, as
/// `char::is_alphanumeric` decides it.
pub uninterp spec fn alphanumeric(c: char) -> bool;

/// `char::is_alphabetic` of the standard library. The contract only names
/// its result: what Unicode counts as alphabetic is not stated here.
#[verifier::external_body]
fn is_alphabetic(c: char) -> (r: bool)
    ensures
        r == alphabetic(c),
{
    c.is_alphabetic()
}

/// `char::is_alphanumeric` of the standard library. The contract only names
/// its result: what Unicode counts as alphabetic or numeric is not stated here.
#[verifier::external_body]
fn is_alphanumeric(c: char) -> (r: bool)
    ensures
        r == alphanumeric(c),
{
    c.is_alphanumeric()
}

/// Whether `c` is a decimal digit.
pub open spec fn digit(c: char) -> bool {
    '0' <= c && c <= '9'
}

fn is_digit(c: char) -> (r: bool)
    ensures
        r == digit(c),
{
    '0' <= c && c <= '9'
}

/// The kinds of stretches that the scanner runs over.
#[derive(Clone, Copy)]
pub enum Run {
    /// Decimal digits.
    Digits,
    /// Letters and digits of a name.
    Name,
    /// The rest of a line.
    Comment,
    /// The inside of a string.
    Text,
}

/// Whether `c` continues a run of the kind.
pub open spec fn continues(run: Run, c: char) -> bool {
    match run {
        Run::Digits => digit(c),
        Run::Name => alphanumeric(c),
        Run::Comment => c != '\n',
        Run::Text => c != '"',
    }
}

/// The number of characters from `position` on that continue the run.
pub open spec fn run_length(source: Seq<char>, position: nat, run: Run) -> nat
    decreases source.len() - position,
{
    if position < source.len() && continues(run, source[position as int]) {
        1 + run_length(source, position + 1, run)
    } else {
        0
    }
}

/// The line after `line`; the count stops at the largest machine integer.
pub open spec fn next_line(line: usize) -> usize {
    if line < usize::MAX {
        (line + 1) as usize
    } else {
        line
    }
}

/// The line after the characters from `from` up to `to`, when `from` is on `line`.
pub open spec fn line_after(source: Seq<char>, from: nat, to: nat, line: usize) -> usize
    decreases to,
{
    if to <= from || to > source.len() {
        line
    } else if source[to - 1] == '\n' {
        next_line(line_after(source, from, (to - 1) as nat, line))
    } else {
        line_after(source, from, (to - 1) as nat, line)
    }
}

/// The reserved words and their kinds.
pub open spec fn reserved_words() -> Map<Seq<char>, TokenKind> {
    Map::<Seq<char>, TokenKind>::empty().insert("and"@, TokenKind::And).insert(
        "class"@,
        TokenKind::Class,
    ).insert("else"@, TokenKind::Else).insert("false"@, TokenKind::False).insert(
        "for"@,
        TokenKind::For,
    ).insert("fun"@, TokenKind::Fun).insert("if"@, TokenKind::If).insert(
        "nil"@,
        TokenKind::Nil,
    ).insert("or"@, TokenKind::Or).insert("print"@, TokenKind::Print).insert(
        "return"@,
        TokenKind::Return,
    ).insert("super"@, TokenKind::Super).insert("this"@, TokenKind::This).insert(
        "true"@,
        TokenKind::True,
    ).insert("var"@, TokenKind::Var).insert("while"@, TokenKind::While)
}

/// The kind of a name: that of the reserved word it is, else an identifier.
pub open spec fn name_kind(text: Seq<char>) -> TokenKind {
    if reserved_words().contains_key(text) {
        reserved_words()[text]
    } else {
        TokenKind::Identifier
    }
}

/// What a token of this kind stands for where it is no string and no number.
pub open spec fn plain_constant(kind: TokenKind) -> Constant {
    match kind {
        TokenKind::True => Constant::Bool(true),
        TokenKind::False => Constant::Bool(false),
        _ => Constant::Nil,
    }
}

/// What one round of the scanner yields: a token or nothing, where the next
/// round starts, and the line there.
pub ghost struct Lexed {
    pub token: Option<Lexeme>,
    pub next: nat,
    pub line: usize,
}

/// A round that makes the token of the characters from `start` up to `next`.
pub open spec fn token_at(
    source: Seq<char>,
    kind: TokenKind,
    literal: Constant,
    start: nat,
    next: nat,
    line: usize,
) -> Lexed {
    Lexed {
        token: Some(
            Lexeme {
                kind,
                text: source.subrange(start as int, next as int),
                literal,
                line,
                scanner_index: start as usize,
            },
        ),
        next,
        line,
    }
}

/// Whether the character at `position` is the expected one.
pub open spec fn follows(source: Seq<char>, position: nat, expected: char) -> bool {
    position < source.len() && source[position as int] == expected
}

/// An operator of one character that a `=` makes into another.
pub open spec fn operator(
    source: Seq<char>,
    start: nat,
    line: usize,
    short: TokenKind,
    long: TokenKind,
) -> Lexed {
    if follows(source, start + 1, '=') {
        token_at(source, long, Constant::Nil, start, start + 2, line)
    } else {
        token_at(source, short, Constant::Nil, start, start + 1, line)
    }
}

/// Where a number that starts at `start` ends: after its digits, and after a
/// point and more digits where a digit follows the point.
pub open spec fn number_end(source: Seq<char>, start: nat) -> nat {
    let whole = start + 1 + run_length(source, start + 1, Run::Digits);
    if follows(source, whole, '.') && whole + 1 < source.len() && digit(source[whole as int + 1]) {
        whole + 1 + run_length(source, whole + 1, Run::Digits)
    } else {
        whole
    }
}

/// One round of the scanner at `start`, which lies inside the source.
pub open spec fn lexed(source: Seq<char>, start: nat, line: usize) -> Result<Lexed, ScanError> {
    let c = source[start as int];
    let single = |kind: TokenKind| Ok::<Lexed, ScanError>(token_at(source, kind, Constant::Nil, start, start + 1, line));
    if c == '(' {
        single(TokenKind::LeftParen)
    } else if c == ')' {
        single(TokenKind::RightParen)
    } else if c == '{' {
        single(TokenKind::LeftBrace)
    } else if c == '}' {
        single(TokenKind::RightBrace)
    } else if c == ',' {
        single(TokenKind::Comma)
    } else if c == '.' {
        single(TokenKind::Dot)
    } else if c == '-' {
        single(TokenKind::Minus)
    } else if c == '+' {
        single(TokenKind::Plus)
    } else if c == ';' {
        single(TokenKind::Semicolon)
    } else if c == '*' {
        single(TokenKind::Star)
    } else if c == '!' {
        Ok(operator(source, start, line, TokenKind::Bang, TokenKind::BangEqual))
    } else if c == '=' {
        Ok(operator(source, start, line, TokenKind::Equal, TokenKind::EqualEqual))
    } else if c == '<' {
        Ok(operator(source, start, line, TokenKind::Less, TokenKind::LessEqual))
    } else if c == '>' {
        Ok(operator(source, start, line, TokenKind::Greater, TokenKind::GreaterEqual))
    } else if c == '/' {
        if follows(source, start + 1, '/') {
            Ok(
                Lexed {
                    token: None,
                    next: start + 2 + run_length(source, start + 2, Run::Comment),
                    line,
                },
            )
        } else {
            single(TokenKind::Slash)
        }
    } else if c == ' ' || c == '\r' || c == '\t' {
        Ok(Lexed { token: None, next: start + 1, line })
    } else if c == '\n' {
        Ok(Lexed { token: None, next: start + 1, line: next_line(line) })
    } else if c == '"' {
        let close = start + 1 + run_length(source, start + 1, Run::Text);
        let last = line_after(source, start + 1, close, line);
        if close >= source.len() {
            Err(ScanError::UnterminatedString(last))
        } else {
            Ok(
                token_at(
                    source,
                    TokenKind::String,
                    Constant::Str(source.subrange(start as int + 1, close as int)),
                    start,
                    close + 1,
                    last,
                ),
            )
        }
    } else if digit(c) {
        Ok(token_at(source, TokenKind::Number, Constant::Number, start, number_end(source, start), line))
    } else if c == '_' || alphabetic(c) {
        let end = start + 1 + run_length(source, start + 1, Run::Name);
        let kind = name_kind(source.subrange(start as int, end as int));
        Ok(token_at(source, kind, plain_constant(kind), start, end, line))
    } else {
        Err(ScanError::UnexpectedCharacter(c, line))
    }
}

/// A run stays inside the source.
pub proof fn lemma_run_in_range(source: Seq<char>, position: nat, run: Run)
    requires
        position <= source.len(),
    ensures
        position + run_length(source, position, run) <= source.len(),
    decreases source.len() - position,
{
    if position < source.len() && continues(run, source[position as int]) {
        lemma_run_in_range(source, position + 1, run);
    }
}

/// A round of the scanner moves on and stays inside the source.
pub proof fn lemma_lexed_advances(source: Seq<char>, start: nat, line: usize)
    requires
        start < source.len(),
    ensures
        lexed(source, start, line) matches Ok(step) ==> start < step.next <= source.len(),
{
    lemma_run_in_range(source, start + 1, Run::Digits);
    lemma_run_in_range(source, start + 1, Run::Name);
    lemma_run_in_range(source, start + 1, Run::Text);
    if start + 2 <= source.len() {
        lemma_run_in_range(source, start + 2, Run::Comment);
    }
    let whole = start + 1 + run_length(source, start + 1, Run::Digits);
    if whole + 1 <= source.len() {
        lemma_run_in_range(source, whole + 1, Run::Digits);
    }
}

/// The token that ends every list of tokens.
pub open spec fn end_of_file(line: usize, last_start: nat) -> Lexeme {
    Lexeme {
        kind: TokenKind::Eof,
        text: Seq::empty(),
        literal: Constant::Nil,
        line,
        scanner_index: last_start as usize,
    }
}

/// The tokens of the source from `position` on, when `position` is on `line`
/// and the round before started at `last_start`. The list ends with the
/// end-of-file token, which carries the start of the last round.
pub open spec fn scanned(source: Seq<char>, position: nat, line: usize, last_start: nat) -> Result<
    Seq<Lexeme>,
    ScanError,
>
    decreases source.len() - position,
{
    if position >= source.len() {
        Ok(seq![end_of_file(line, last_start)])
    } else {
        match lexed(source, position, line) {
            Err(e) => Err(e),
            Ok(step) => {
                proof {
                    lemma_lexed_advances(source, position, line);
                }
                match scanned(source, step.next, step.line, position) {
                    Err(e) => Err(e),
                    Ok(rest) => Ok(
                        match step.token {
                            Some(token) => seq![token] + rest,
                            None => rest,
                        },
                    ),
                }
            },
        }
    }
}

/// The tokens of a whole source.
pub open spec fn scan(source: Seq<char>) -> Result<Seq<Lexeme>, ScanError> {
    scanned(source, 0, 1, 0)
}

/// A round that yields a token adds it to the tokens so far.
pub open spec fn extended(tokens: Seq<Lexeme>, token: Option<Lexeme>) -> Seq<Lexeme> {
    match token {
        Some(found) => tokens.push(found),
        None => tokens,
    }
}

/// The tokens so far followed by what the rest of the source gives.
pub open spec fn completed(tokens: Seq<Lexeme>, rest: Result<Seq<Lexeme>, ScanError>) -> Result<
    Seq<Lexeme>,
    ScanError,
> {
    match rest {
        Ok(more) => Ok(tokens + more),
        Err(e) => Err(e),
    }
}

/// The scanner: it turns a source text into its tokens.
pub struct Scanner {
    source: String,
    chars: Vec<char>,
    ascii: bool,
    reserved: StringHashMap<TokenKind>,
    tokens: Vec<Token>,
    start: usize,
    current: usize,
    line: usize,
}

impl Scanner {
    /// The source text.
    pub closed spec fn text(&self) -> Seq<char> {
        self.source@
    }

    /// Whether the scanner's state is well-formed.
    pub closed spec fn wf(&self) -> bool {
        &&& self.chars@ == self.source@
        &&& self.ascii == self.source.is_ascii()
        &&& self.reserved@ == reserved_words()
        &&& self.start <= self.current <= self.chars@.len()
    }

    /// Whether the scanner stands at the beginning of its source with no token made.
    pub closed spec fn fresh(&self) -> bool {
        &&& self.wf()
        &&& self.tokens@.len() == 0
        &&& self.start == 0
        &&& self.current == 0
        &&& self.line == 1
    }

    /// A scanner at the beginning of a source text.
    pub fn new(source: String) -> (scanner: Self)
        ensures
            scanner.fresh(),
            scanner.text() == source@,
    {
        let chars = characters(source.as_str());
        let ascii = source.is_ascii();
        let mut reserved: StringHashMap<TokenKind> = StringHashMap::new();
        reserved.insert("and".to_owned(), TokenKind::And);
        reserved.insert("class".to_owned(), TokenKind::Class);
        reserved.insert("else".to_owned(), TokenKind::Else);
        reserved.insert("false".to_owned(), TokenKind::False);
        reserved.insert("for".to_owned(), TokenKind::For);
        reserved.insert("fun".to_owned(), TokenKind::Fun);
        reserved.insert("if".to_owned(), TokenKind::If);
        reserved.insert("nil".to_owned(), TokenKind::Nil);
        reserved.insert("or".to_owned(), TokenKind::Or);
        reserved.insert("print".to_owned(), TokenKind::Print);
        reserved.insert("return".to_owned(), TokenKind::Return);
        reserved.insert("super".to_owned(), TokenKind::Super);
        reserved.insert("this".to_owned(), TokenKind::This);
        reserved.insert("true".to_owned(), TokenKind::True);
        reserved.insert("var".to_owned(), TokenKind::Var);
        reserved.insert("while".to_owned(), TokenKind::While);
        Scanner { source, chars, ascii, reserved, tokens: Vec::new(), start: 0, current: 0, line: 1 }
    }

    /// Scans the whole source. The result is the list of its tokens, which
    /// ends with the one end-of-file token, or the first error.
    pub fn scan_tokens(self) -> (result: Result<Vec<Token>, ScanError>)
        requires
            self.fresh(),
        ensures
            match scan(self.text()) {
                Ok(expected) => result matches Ok(tokens) && lexemes(tokens@) == expected,
                Err(e) => result matches Err(error) && error == e,
            },
            result matches Ok(tokens) ==> ends_with_eof(tokens@),
    {
        let mut scanner = self;
        assert(completed(lexemes(scanner.tokens@), scanned(scanner.text(), 0, 1, 0)) =~= scan(
            self.text(),
        )) by {
            assert(lexemes(scanner.tokens@) =~= Seq::<Lexeme>::empty());
            match scanned(scanner.text(), 0, 1, 0) {
                Ok(more) => {
                    assert(lexemes(scanner.tokens@) + more =~= more);
                },
                Err(_) => {},
            }
        }
        while !scanner.is_at_end()
            invariant
                scanner.wf(),
                scanner.text() == self.text(),
                forall|i: int| 0 <= i < scanner.tokens@.len() ==> scanner.tokens@[i].kind != TokenKind::Eof,
                completed(
                    lexemes(scanner.tokens@),
                    scanned(
                        scanner.text(),
                        scanner.current as nat,
                        scanner.line,
                        scanner.start as nat,
                    ),
                ) == scan(self.text()),
            decreases scanner.chars@.len() - scanner.current,
        {
            let ghost before = scanner;
            let ghost step = lexed(scanner.text(), scanner.current as nat, scanner.line);
            proof {
                lemma_lexed_advances(scanner.text(), scanner.current as nat, scanner.line);
                lemma_lexed_is_no_eof(scanner.text(), scanner.current as nat, scanner.line);
            }
            match scanner.scan_token() {
                Ok(()) => {
                    proof {
                        let seen = lexemes(before.tokens@);
                        let rest = scanned(
                            scanner.text(),
                            scanner.current as nat,
                            scanner.line,
                            scanner.start as nat,
                        );
                        match rest {
                            Ok(more) => {
                                match step.unwrap().token {
                                    Some(token) => {
                                        assert(seen.push(token) + more =~= seen + (seq![token]
                                            + more));
                                    },
                                    None => {},
                                }
                            },
                            Err(_) => {},
                        }
                        let made = step.unwrap();
                        assert(lexemes(scanner.tokens@) == extended(seen, made.token));
                        assert(lexemes(scanner.tokens@).len() == scanner.tokens@.len());
                        assert(seen.len() == before.tokens@.len());
                        assert forall|i: int| 0 <= i < scanner.tokens@.len() implies scanner.tokens@[i].kind
                            != TokenKind::Eof by {
                            assert(lexemes(scanner.tokens@)[i] == scanner.tokens@[i]@);
                            if i < before.tokens@.len() {
                                assert(seen[i] == before.tokens@[i]@);
                                assert(extended(seen, made.token)[i] == seen[i]);
                            } else {
                                assert(made.token is Some);
                                assert(extended(seen, made.token)[i] == made.token.unwrap());
                            }
                        }
                    }
                },
                Err(e) => {
                    return Err(e);
                },
            }
        }
        let end = Token {
            kind: TokenKind::Eof,
            lexeme: String::new(),
            literal: Literal::Nil,
            line: scanner.line,
            scanner_index: scanner.start,
        };
        let ghost seen = lexemes(scanner.tokens@);
        scanner.tokens.push(end);
        proof {
            assert(lexemes(scanner.tokens@) =~= seen + seq![end@]);
        }
        Ok(scanner.tokens)
    }

    fn is_at_end(&self) -> (r: bool)
        requires
            self.wf(),
        ensures
            r == (self.current >= self.text().len()),
    {
        self.current >= self.chars.len()
    }

    /// Does one round: skips blanks and comments or makes one token.
    fn scan_token(&mut self) -> (result: Result<(), ScanError>)
        requires
            old(self).wf(),
            old(self).current < old(self).text().len(),
        ensures
            match lexed(old(self).text(), old(self).current as nat, old(self).line) {
                Ok(step) => {
                    &&& result is Ok
                    &&& final(self).wf()
                    &&& final(self).text() == old(self).text()
                    &&& final(self).start == old(self).current
                    &&& final(self).current == step.next
                    &&& final(self).line == step.line
                    &&& lexemes(final(self).tokens@) == extended(
                        lexemes(old(self).tokens@),
                        step.token,
                    )
                },
                Err(e) => result == Err::<(), ScanError>(e),
            },
    {
        proof {
            lemma_lexed_advances(self.text(), self.current as nat, self.line);
        }
        let len = self.chars.len();
        self.start = self.current;
        let c = self.chars[self.current];
        self.current = self.current + 1;
        if c == '(' {
            self.add_token(TokenKind::LeftParen);
        } else if c == ')' {
            self.add_token(TokenKind::RightParen);
        } else if c == '{' {
            self.add_token(TokenKind::LeftBrace);
        } else if c == '}' {
            self.add_token(TokenKind::RightBrace);
        } else if c == ',' {
            self.add_token(TokenKind::Comma);
        } else if c == '.' {
            self.add_token(TokenKind::Dot);
        } else if c == '-' {
            self.add_token(TokenKind::Minus);
        } else if c == '+' {
            self.add_token(TokenKind::Plus);
        } else if c == ';' {
            self.add_token(TokenKind::Semicolon);
        } else if c == '*' {
            self.add_token(TokenKind::Star);
        } else if c == '!' {
            let kind = if self.match_lookahead('=') {
                TokenKind::BangEqual
            } else {
                TokenKind::Bang
            };
            self.add_token(kind);
        } else if c == '=' {
            let kind = if self.match_lookahead('=') {
                TokenKind::EqualEqual
            } else {
                TokenKind::Equal
            };
            self.add_token(kind);
        } else if c == '<' {
            let kind = if self.match_lookahead('=') {
                TokenKind::LessEqual
            } else {
                TokenKind::Less
            };
            self.add_token(kind);
        } else if c == '>' {
            let kind = if self.match_lookahead('=') {
                TokenKind::GreaterEqual
            } else {
                TokenKind::Greater
            };
            self.add_token(kind);
        } else if c == '/' {
            if self.match_lookahead('/') {
                self.current = self.run_end(self.current, Run::Comment);
                assert(lexemes(self.tokens@) =~= lexemes(old(self).tokens@));
            } else {
                self.add_token(TokenKind::Slash);
            }
        } else if c == ' ' || c == '\r' || c == '\t' {
            assert(lexemes(self.tokens@) =~= lexemes(old(self).tokens@));
        } else if c == '\n' {
            self.line = Self::following_line(self.line);
            assert(lexemes(self.tokens@) =~= lexemes(old(self).tokens@));
        } else if c == '"' {
            return self.string();
        } else if is_digit(c) {
            self.number();
        } else if c == '_' || is_alphabetic(c) {
            self.identifier();
        } else {
            return Err(ScanError::UnexpectedCharacter(c, self.line));
        }
        Ok(())
    }

    fn following_line(line: usize) -> (next: usize)
        ensures
            next == next_line(line),
    {
        if line < usize::MAX {
            line + 1
        } else {
            line
        }
    }

    /// Takes the next character where it is the expected one.
    fn match_lookahead(&mut self, expected: char) -> (matched: bool)
        requires
            old(self).wf(),
        ensures
            final(self).wf(),
            matched == follows(old(self).text(), old(self).current as nat, expected),
            final(self).current == old(self).current + (if matched {
                1int
            } else {
                0int
            }),
            final(self).source == old(self).source,
            final(self).tokens == old(self).tokens,
            final(self).start == old(self).start,
            final(self).line == old(self).line,
    {
        if self.current >= self.chars.len() {
            return false;
        }
        if self.chars[self.current] != expected {
            return false;
        }
        self.current = self.current + 1;
        true
    }

    fn does_continue(run: Run, c: char) -> (r: bool)
        ensures
            r == continues(run, c),
    {
        match run {
            Run::Digits => is_digit(c),
            Run::Name => is_alphanumeric(c),
            Run::Comment => c != '\n',
            Run::Text => c != '"',
        }
    }

    /// Where the run that starts at `position` ends.
    fn run_end(&self, position: usize, run: Run) -> (end: usize)
        requires
            self.wf(),
            position <= self.text().len(),
        ensures
            end == position + run_length(self.text(), position as nat, run),
            position <= end <= self.text().len(),
    {
        let mut i = position;
        while i < self.chars.len() && Self::does_continue(run, self.chars[i])
            invariant
                self.wf(),
                position <= i <= self.chars@.len(),
                run_length(self.text(), position as nat, run) == (i - position) + run_length(
                    self.text(),
                    i as nat,
                    run,
                ),
            decreases self.chars@.len() - i,
        {
            i = i + 1;
        }
        i
    }

    /// The line after the characters from `from` up to `to`.
    fn count_lines(&self, from: usize, to: usize, line: usize) -> (last: usize)
        requires
            self.wf(),
            from <= to <= self.text().len(),
        ensures
            last == line_after(self.text(), from as nat, to as nat, line),
    {
        let mut i = from;
        let mut last = line;
        while i < to
            invariant
                self.wf(),
                from <= i <= to <= self.chars@.len(),
                last == line_after(self.text(), from as nat, i as nat, line),
            decreases to - i,
        {
            if self.chars[i] == '\n' {
                last = Self::following_line(last);
            }
            i = i + 1;
        }
        last
    }

    /// The characters of the source from `from` up to `to`.
    fn slice(&self, from: usize, to: usize) -> (text: String)
        requires
            self.wf(),
            from <= to <= self.text().len(),
        ensures
            text@ == self.text().subrange(from as int, to as int),
    {
        if self.ascii {
            self.source.as_str().substring_ascii(from, to).to_owned()
        } else {
            self.source.as_str().substring_char(from, to).to_owned()
        }
    }

    /// Adds a token of a kind that is no string and no number.
    fn add_token(&mut self, kind: TokenKind)
        requires
            old(self).wf(),
        ensures
            final(self).wf(),
            final(self).source == old(self).source,
            final(self).start == old(self).start,
            final(self).current == old(self).current,
            final(self).line == old(self).line,
            lexemes(final(self).tokens@) == lexemes(old(self).tokens@).push(
                Lexeme {
                    kind,
                    text: old(self).text().subrange(old(self).start as int, old(self).current as int),
                    literal: plain_constant(kind),
                    line: old(self).line,
                    scanner_index: old(self).start,
                },
            ),
    {
        let value = match kind {
            TokenKind::True => Literal::Bool(true),
            TokenKind::False => Literal::Bool(false),
            _ => Literal::Nil,
        };
        self.add_literal_token(kind, value);
    }

    fn add_literal_token(&mut self, kind: TokenKind, literal: Literal)
        requires
            old(self).wf(),
        ensures
            final(self).wf(),
            final(self).source == old(self).source,
            final(self).start == old(self).start,
            final(self).current == old(self).current,
            final(self).line == old(self).line,
            lexemes(final(self).tokens@) == lexemes(old(self).tokens@).push(
                Lexeme {
                    kind,
                    text: old(self).text().subrange(old(self).start as int, old(self).current as int),
                    literal: constant(literal),
                    line: old(self).line,
                    scanner_index: old(self).start,
                },
            ),
    {
        let text = self.slice(self.start, self.current);
        let token = Token {
            kind,
            lexeme: text,
            literal,
            line: self.line,
            scanner_index: self.start,
        };
        self.tokens.push(token);
        assert(lexemes(self.tokens@) =~= lexemes(old(self).tokens@).push(token@));
    }

    /// Scans a string, whose opening quote has been taken.
    fn string(&mut self) -> (result: Result<(), ScanError>)
        requires
            old(self).wf(),
            old(self).current == old(self).start + 1,
            old(self).text()[old(self).start as int] == '"',
        ensures
            match lexed(old(self).text(), old(self).start as nat, old(self).line) {
                Ok(step) => {
                    &&& result is Ok
                    &&& final(self).wf()
                    &&& final(self).text() == old(self).text()
                    &&& final(self).start == old(self).start
                    &&& final(self).current == step.next
                    &&& final(self).line == step.line
                    &&& lexemes(final(self).tokens@) == extended(
                        lexemes(old(self).tokens@),
                        step.token,
                    )
                },
                Err(e) => result == Err::<(), ScanError>(e),
            },
    {
        let close = self.run_end(self.current, Run::Text);
        self.line = self.count_lines(self.current, close, self.line);
        if close >= self.chars.len() {
            return Err(ScanError::UnterminatedString(self.line));
        }
        self.current = close + 1;
        let value = self.slice(self.start + 1, close);
        self.add_literal_token(TokenKind::String, Literal::Str(value));
        Ok(())
    }

    /// Scans a number, whose first digit has been taken.
    fn number(&mut self)
        requires
            old(self).wf(),
            old(self).current == old(self).start + 1,
        ensures
            final(self).wf(),
            final(self).source == old(self).source,
            final(self).start == old(self).start,
            final(self).current == number_end(old(self).text(), old(self).start as nat),
            final(self).line == old(self).line,
            lexemes(final(self).tokens@) == lexemes(old(self).tokens@).push(
                Lexeme {
                    kind: TokenKind::Number,
                    text: old(self).text().subrange(
                        old(self).start as int,
                        number_end(old(self).text(), old(self).start as nat) as int,
                    ),
                    literal: Constant::Number,
                    line: old(self).line,
                    scanner_index: old(self).start,
                },
            ),
    {
        self.current = self.run_end(self.current, Run::Digits);
        let len = self.chars.len();
        if self.peek() == '.' && len - self.current > 1 && is_digit(self.peek_next()) {
            self.current = self.run_end(self.current + 1, Run::Digits);
        }
        self.add_literal_token(TokenKind::Number, Literal::Number);
    }

    /// The next character, or the null character at the end of the source.
    fn peek(&self) -> (c: char)
        requires
            self.wf(),
        ensures
            c == (if self.current < self.text().len() {
                self.text()[self.current as int]
            } else {
                '\0'
            }),
    {
        if self.current >= self.chars.len() {
            '\0'
        } else {
            self.chars[self.current]
        }
    }

    /// The character after the next, or the null character where there is none.
    fn peek_next(&self) -> (c: char)
        requires
            self.wf(),
        ensures
            c == (if self.current + 1 < self.text().len() {
                self.text()[self.current + 1]
            } else {
                '\0'
            }),
    {
        if self.current >= self.chars.len() || self.current + 1 >= self.chars.len() {
            '\0'
        } else {
            self.chars[self.current + 1]
        }
    }

    /// Scans a name, whose first character has been taken.
    fn identifier(&mut self)
        requires
            old(self).wf(),
            old(self).current == old(self).start + 1,
        ensures
            final(self).wf(),
            final(self).source == old(self).source,
            final(self).start == old(self).start,
            final(self).current == old(self).start + 1 + run_length(
                old(self).text(),
                (old(self).start + 1) as nat,
                Run::Name,
            ),
            final(self).line == old(self).line,
            lexemes(final(self).tokens@) == lexemes(old(self).tokens@).push(
                Lexeme {
                    kind: name_kind(
                        old(self).text().subrange(
                            old(self).start as int,
                            final(self).current as int,
                        ),
                    ),
                    text: old(self).text().subrange(
                        old(self).start as int,
                        final(self).current as int,
                    ),
                    literal: plain_constant(
                        name_kind(
                            old(self).text().subrange(
                                old(self).start as int,
                                final(self).current as int,
                            ),
                        ),
                    ),
                    line: old(self).line,
                    scanner_index: old(self).start,
                },
            ),
    {
        self.current = self.run_end(self.current, Run::Name);
        let text = self.slice(self.start, self.current);
        let kind = match self.reserved.get(text.as_str()) {
            Some(kind) => *kind,
            None => TokenKind::Identifier,
        };
        self.add_token(kind);
    }
}

/// Whether a list of tokens is not empty and ends with the end-of-file
/// token, which occurs nowhere else in it.
pub open spec fn ends_with_eof(tokens: Seq<Token>) -> bool {
    &&& tokens.len() > 0
    &&& tokens.last().kind == TokenKind::Eof
    &&& forall|i: int| 0 <= i < tokens.len() - 1 ==> tokens[i].kind != TokenKind::Eof
}

/// A round of the scanner never makes the end-of-file token.
pub proof fn lemma_lexed_is_no_eof(source: Seq<char>, start: nat, line: usize)
    requires
        start < source.len(),
    ensures
        lexed(source, start, line) matches Ok(step) ==> (step.token matches Some(token)
            ==> token.kind != TokenKind::Eof),
{
    reveal_strlit("and");
    reveal_strlit("class");
    reveal_strlit("else");
    reveal_strlit("false");
    reveal_strlit("for");
    reveal_strlit("fun");
    reveal_strlit("if");
    reveal_strlit("nil");
    reveal_strlit("or");
    reveal_strlit("print");
    reveal_strlit("return");
    reveal_strlit("super");
    reveal_strlit("this");
    reveal_strlit("true");
    reveal_strlit("var");
    reveal_strlit("while");
}

/// The tokens of a source end with the one end-of-file token; every other
/// token starts inside the source, and each starts after the one before it,
/// so that no two of them share their position.
pub proof fn law_positions_increase(source: Seq<char>, position: nat, line: usize, last_start: nat)
    requires
        source.len() <= usize::MAX,
    ensures
        scanned(source, position, line, last_start) matches Ok(tokens) ==> {
            &&& tokens.len() > 0
            &&& tokens.last().kind == TokenKind::Eof
            &&& forall|i: int|
                0 <= i < tokens.len() - 1 ==> position <= (#[trigger] tokens[i]).scanner_index
                    < source.len() && tokens[i].kind != TokenKind::Eof
            &&& forall|i: int, j: int|
                0 <= i < j < tokens.len() - 1 ==> (#[trigger] tokens[i]).scanner_index < (
                #[trigger] tokens[j]).scanner_index
        },
    decreases source.len() - position,
{
    if position < source.len() {
        match lexed(source, position, line) {
            Err(_) => {},
            Ok(step) => {
                lemma_lexed_advances(source, position, line);
                lemma_lexed_is_no_eof(source, position, line);
                law_positions_increase(source, step.next, step.line, position);
                match scanned(source, step.next, step.line, position) {
                    Err(_) => {},
                    Ok(rest) => {
                        let tokens = scanned(source, position, line, last_start).unwrap();
                        match step.token {
                            Some(token) => {
                                assert(tokens =~= seq![token] + rest);
                                assert(token.scanner_index == position);
                                assert forall|i: int| 0 <= i < tokens.len() - 1 implies position <= (
                                #[trigger] tokens[i]).scanner_index < source.len() && tokens[i].kind
                                    != TokenKind::Eof by {
                                    if i > 0 {
                                        assert(tokens[i] == rest[i - 1]);
                                    }
                                }
                                assert forall|i: int, j: int| 0 <= i < j < tokens.len() - 1 implies (
                                #[trigger] tokens[i]).scanner_index < (
                                #[trigger] tokens[j]).scanner_index by {
                                    assert(tokens[j] == rest[j - 1]);
                                    if i > 0 {
                                        assert(tokens[i] == rest[i - 1]);
                                    }
                                }
                            },
                            None => {
                                assert(tokens == rest);
                            },
                        }
                    },
                }
            },
        }
    }
}

} // verus!
