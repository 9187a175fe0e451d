use vstd::prelude::*;

verus! {

pub open spec fn ws_chars() -> Seq<char> {
    seq![' ', '\t', '\r', '\n']
}

pub open spec fn punct_chars() -> Seq<char> {
    seq!['`', '~', '!', '@', '#', '$', '%', '^', '&', '*', '(', ')', '+', '-', '=', '[', ']', '\\', '{', '}', '|', ';', ':', ',', '.', '/', '<', '>', '?']
}

pub open spec fn str_grp_chars() -> Seq<char> {
    seq!['"', '\'']
}

pub open spec fn oct_digit_chars() -> Seq<char> {
    seq!['0', '1', '2', '3', '4', '5', '6', '7']
}

pub open spec fn digit_chars() -> Seq<char> {
    seq!['0', '1', '2', '3', '4', '5', '6', '7', '8', '9']
}

pub open spec fn hex_digit_chars() -> Seq<char> {
    seq!['0', '1', '2', '3', '4', '5', '6', '7', '8', '9', 'a', 'b', 'c', 'd', 'e', 'f', 'A', 'B', 'C', 'D', 'E', 'F']
}

pub open spec fn ident_start_chars() -> Seq<char> {
    seq!['a', 'b', 'c', 'd', 'e', 'f', 'g', 'h', 'i', 'j', 'k', 'l', 'm', 'n', 'o', 'p', 'q', 'r', 's', 't', 'u', 'v', 'w', 'x', 'y', 'z', 'A', 'B', 'C', 'D', 'E', 'F', 'G', 'H', 'I', 'J', 'K', 'L', 'M', 'N', 'O', 'P', 'Q', 'R', 'S', 'T', 'U', 'V', 'W', 'X', 'Y', 'Z', '_']
}

pub open spec fn ident_chars() -> Seq<char> {
    seq!['a', 'b', 'c', 'd', 'e', 'f', 'g', 'h', 'i', 'j', 'k', 'l', 'm', 'n', 'o', 'p', 'q', 'r', 's', 't', 'u', 'v', 'w', 'x', 'y', 'z', 'A', 'B', 'C', 'D', 'E', 'F', 'G', 'H', 'I', 'J', 'K', 'L', 'M', 'N', 'O', 'P', 'Q', 'R', 'S', 'T', 'U', 'V', 'W', 'X', 'Y', 'Z', '_', '0', '1', '2', '3', '4', '5', '6', '7', '8', '9']
}

/// The escapes a backslash introduces inside a string, by the character after it.
pub open spec fn escape_pairs() -> Seq<(char, char)> {
    seq![('n', '\n'), ('t', '\t'), ('r', '\r'), ('"', '"'), ('\'', '\'')]
}

/// The character that `\c` stands for inside a string.
pub open spec fn escaped(c: char) -> char {
    if c == 'n' {
        '\n'
    } else if c == 't' {
        '\t'
    } else if c == 'r' {
        '\r'
    } else {
        c
    }
}

/// The character classes and escapes of the input language.
pub struct Lexemes {
    ws: Vec<char>,
    punct: Vec<char>,
    str_grp: Vec<char>,
    escape: char,
    escapes: Vec<(char, char)>,
    esc_hex: char,
    esc_oct: char,
    oct_digit: Vec<char>,
    digit: Vec<char>,
    hex_digit: Vec<char>,
    ident_start: Vec<char>,
    ident: Vec<char>,
}

impl Lexemes {
    /// The tables hold the classes of the input language.
    pub closed spec fn wf(&self) -> bool {
        &&& self.ws@ == ws_chars()
        &&& self.punct@ == punct_chars()
        &&& self.str_grp@ == str_grp_chars()
        &&& self.escape == '\\'
        &&& self.escapes@ == escape_pairs()
        &&& self.esc_hex == 'x'
        &&& self.esc_oct == '0'
        &&& self.oct_digit@ == oct_digit_chars()
        &&& self.digit@ == digit_chars()
        &&& self.hex_digit@ == hex_digit_chars()
        &&& self.ident_start@ == ident_start_chars()
        &&& self.ident@ == ident_chars()
    }

    /// The tables of the input language.
    pub fn default() -> (r: Lexemes)
        ensures
            r.wf(),
    {
        Lexemes {
            ws: vec![' ', '\t', '\r', '\n'],
            punct: vec!['`', '~', '!', '@', '#', '$', '%', '^', '&', '*', '(', ')', '+', '-', '=', '[', ']', '\\', '{', '}', '|', ';', ':', ',', '.', '/', '<', '>', '?'],
            str_grp: vec!['"', '\''],
            oct_digit: vec!['0', '1', '2', '3', '4', '5', '6', '7'],
            digit: vec!['0', '1', '2', '3', '4', '5', '6', '7', '8', '9'],
            hex_digit: vec!['0', '1', '2', '3', '4', '5', '6', '7', '8', '9', 'a', 'b', 'c', 'd', 'e', 'f', 'A', 'B', 'C', 'D', 'E', 'F'],
            ident_start: vec!['a', 'b', 'c', 'd', 'e', 'f', 'g', 'h', 'i', 'j', 'k', 'l', 'm', 'n', 'o', 'p', 'q', 'r', 's', 't', 'u', 'v', 'w', 'x', 'y', 'z', 'A', 'B', 'C', 'D', 'E', 'F', 'G', 'H', 'I', 'J', 'K', 'L', 'M', 'N', 'O', 'P', 'Q', 'R', 'S', 'T', 'U', 'V', 'W', 'X', 'Y', 'Z', '_'],
            ident: vec!['a', 'b', 'c', 'd', 'e', 'f', 'g', 'h', 'i', 'j', 'k', 'l', 'm', 'n', 'o', 'p', 'q', 'r', 's', 't', 'u', 'v', 'w', 'x', 'y', 'z', 'A', 'B', 'C', 'D', 'E', 'F', 'G', 'H', 'I', 'J', 'K', 'L', 'M', 'N', 'O', 'P', 'Q', 'R', 'S', 'T', 'U', 'V', 'W', 'X', 'Y', 'Z', '_', '0', '1', '2', '3', '4', '5', '6', '7', '8', '9'],
            escape: '\\',
            escapes: vec![('n', '\n'), ('t', '\t'), ('r', '\r'), ('"', '"'), ('\'', '\'')],
            esc_hex: 'x',
            esc_oct: '0',
        }
    }

    /// The character that `\c` stands for inside a string.
    fn escaped(&self, c: char) -> (r: char)
        requires
            self.wf(),
        ensures
            r == escaped(c),
    {
        let mut i: usize = 0;
        while i < self.escapes.len()
            invariant
                self.wf(),
                i <= self.escapes.len(),
                forall|k: int| 0 <= k < i ==> self.escapes@[k].0 != c,
            decreases self.escapes.len() - i,
        {
            if self.escapes[i].0 == c {
                return self.escapes[i].1;
            }
            i = i + 1;
        }
        assert(self.escapes@[0].0 != c && self.escapes@[1].0 != c && self.escapes@[2].0 != c);
        c
    }
}


/// What a token is, with its text as a sequence of characters.
pub ghost enum TokenV {
    Eof,
    Str(Seq<char>),
    Oper(char),
    Num(Seq<char>),
    Ident(Seq<char>),
}

/// A token of the input language; `EOF` marks the end of the input.
#[allow(non_camel_case_types)]
#[derive(Debug)]
pub enum Token {
    EOF,
    STRING(String),
    OPER(char),
    NUM(String),
    IDENT(String),
}

impl View for Token {
    type V = TokenV;

    open spec fn view(&self) -> TokenV {
        match self {
            Token::EOF => TokenV::Eof,
            Token::STRING(v) => TokenV::Str(v@),
            Token::OPER(c) => TokenV::Oper(*c),
            Token::NUM(v) => TokenV::Num(v@),
            Token::IDENT(v) => TokenV::Ident(v@),
        }
    }
}

/// Why the input could not be split into tokens.
#[derive(Debug, Clone, Copy, PartialEq, Eq)]
pub enum LexError {
    /// The input ended inside a string.
    UnexpectedEof,
    /// A `\x` or `\0` escape without digits, or with a value above 255.
    BadEscape,
    /// No token starts with this character.
    UnexpectedChar(char),
}

/// The end of the run of characters of `class` that starts at `i`.
pub open spec fn run_end(s: Seq<char>, i: int, class: Seq<char>) -> int
    decreases s.len() - i,
{
    if 0 <= i < s.len() && class.contains(s[i]) {
        run_end(s, i + 1, class)
    } else {
        i
    }
}

/// The value of a hexadecimal or octal digit.
pub open spec fn digit_of(c: char) -> nat {
    if '0' <= c <= '9' {
        (c as u32 - '0' as u32) as nat
    } else if 'a' <= c <= 'f' {
        (c as u32 - 'a' as u32 + 10) as nat
    } else if 'A' <= c <= 'F' {
        (c as u32 - 'A' as u32 + 10) as nat
    } else {
        0
    }
}

/// The number that the digits `d` write in base `radix`.
pub open spec fn digits_value(d: Seq<char>, radix: nat) -> nat
    decreases d.len(),
{
    if d.len() == 0 {
        0
    } else {
        digits_value(d.drop_last(), radix) * radix + digit_of(d.last())
    }
}

/// The index just past the first `*/` at or after `k`, or -1 when there is none.
pub open spec fn comment_end(s: Seq<char>, k: int) -> int
    decreases s.len() - k,
{
    if k < 0 || k + 1 >= s.len() {
        -1
    } else if s[k] == '*' && s[k + 1] == '/' {
        k + 2
    } else {
        comment_end(s, k + 1)
    }
}

/// Reads the body of a string closed by `q` from index `j`, with `acc` read so
/// far: the text and the index after the closing quote.
pub open spec fn lex_string(s: Seq<char>, j: int, q: char, acc: Seq<char>) -> Result<(Seq<char>, int), LexError>
    decreases s.len() - j,
{
    if j < 0 || j >= s.len() {
        Err(LexError::UnexpectedEof)
    } else if s[j] == q {
        Ok((acc, j + 1))
    } else if s[j] == '\\' {
        if j + 1 >= s.len() {
            Err(LexError::UnexpectedEof)
        } else if s[j + 1] == 'x' || s[j + 1] == '0' {
            let class = if s[j + 1] == 'x' { hex_digit_chars() } else { oct_digit_chars() };
            let radix: nat = if s[j + 1] == 'x' { 16 } else { 8 };
            let end = run_end(s, j + 2, class);
            if end <= j || end >= s.len() {
                Err(LexError::UnexpectedEof)
            } else if end == j + 2 || digits_value(s.subrange(j + 2, end), radix) > 255 {
                Err(LexError::BadEscape)
            } else {
                lex_string(s, end, q, acc.push((digits_value(s.subrange(j + 2, end), radix) as u8) as char))
            }
        } else {
            lex_string(s, j + 2, q, acc.push(escaped(s[j + 1])))
        }
    } else {
        lex_string(s, j + 1, q, acc.push(s[j]))
    }
}

/// The token that starts at index `i` of `s`, with the index after it.
pub open spec fn lex(s: Seq<char>, i: int) -> (Result<TokenV, LexError>, int)
    decreases s.len() - i,
{
    let k = run_end(s, i, ws_chars());
    if k < 0 || k >= s.len() {
        (Ok(TokenV::Eof), s.len() as int)
    } else if str_grp_chars().contains(s[k]) {
        match lex_string(s, k + 1, s[k], Seq::empty()) {
            Ok((v, e)) => (Ok(TokenV::Str(v)), e),
            Err(x) => (Err(x), s.len() as int),
        }
    } else if punct_chars().contains(s[k]) {
        if s[k] == '/' && k + 1 < s.len() && s[k + 1] == '*' {
            let e = comment_end(s, k + 2);
            if e <= i || e > s.len() {
                (Ok(TokenV::Eof), s.len() as int)
            } else {
                lex(s, e)
            }
        } else {
            (Ok(TokenV::Oper(s[k])), k + 1)
        }
    } else if digit_chars().contains(s[k]) {
        let e = run_end(s, k + 1, digit_chars());
        (Ok(TokenV::Num(s.subrange(k, e))), e)
    } else if ident_start_chars().contains(s[k]) {
        let e = run_end(s, k + 1, ident_chars());
        (Ok(TokenV::Ident(s.subrange(k, e))), e)
    } else {
        (Err(LexError::UnexpectedChar(s[k])), k + 1)
    }
}

proof fn lemma_lex_string_bounds(s: Seq<char>, j: int, q: char, acc: Seq<char>)
    requires
        0 <= j,
    ensures
        lex_string(s, j, q, acc) is Ok ==> j < lex_string(s, j, q, acc)->Ok_0.1 <= s.len(),
    decreases s.len() - j,
{
    if 0 <= j < s.len() && s[j] != q {
        if s[j] == '\\' && j + 1 < s.len() {
            if s[j + 1] == 'x' || s[j + 1] == '0' {
                let class = if s[j + 1] == 'x' { hex_digit_chars() } else { oct_digit_chars() };
                let radix: nat = if s[j + 1] == 'x' { 16 } else { 8 };
                let end = run_end(s, j + 2, class);
                if end > j && end < s.len() && end != j + 2 && digits_value(s.subrange(j + 2, end), radix) <= 255 {
                    lemma_lex_string_bounds(s, end, q, acc.push((digits_value(s.subrange(j + 2, end), radix) as u8) as char));
                }
            } else {
                lemma_lex_string_bounds(s, j + 2, q, acc.push(escaped(s[j + 1])));
            }
        } else if s[j] != '\\' {
            lemma_lex_string_bounds(s, j + 1, q, acc.push(s[j]));
        }
    }
}

/// Every token but the end of the input moves the position forward, and
/// stays within the input.
pub proof fn lemma_lex_progress(s: Seq<char>, i: int)
    requires
        0 <= i <= s.len(),
    ensures
        lex(s, i).0 is Ok && !(lex(s, i).0->Ok_0 is Eof) ==> i < lex(s, i).1 <= s.len(),
    decreases s.len() - i,
{
    lemma_run_end_bounds(s, i, ws_chars());
    let k = run_end(s, i, ws_chars());
    if k < s.len() {
        lemma_run_end_bounds(s, k + 1, digit_chars());
        lemma_run_end_bounds(s, k + 1, ident_chars());
        lemma_lex_string_bounds(s, k + 1, s[k], Seq::empty());
        if punct_chars().contains(s[k]) && s[k] == '/' && k + 1 < s.len() && s[k + 1] == '*' {
            let e = comment_end(s, k + 2);
            if e > i && e <= s.len() {
                lemma_lex_progress(s, e);
            }
        }
    }
}

/// Appends `c` to `s`.
pub(crate) fn push_char_to(s: &mut String, c: char)
    ensures
        final(s)@ == old(s)@.push(c),
{
    push_char(s, c)
}

/// Relies on `String::push`: appends one character.
#[verifier::external_body]
fn push_char(s: &mut String, c: char)
    ensures
        final(s)@ == old(s)@.push(c),
{
    s.push(c)
}

/// A run of characters of a class starts at or after where it is looked for.
proof fn lemma_run_end_bounds(s: Seq<char>, i: int, class: Seq<char>)
    requires
        0 <= i <= s.len(),
    ensures
        i <= run_end(s, i, class) <= s.len(),
    decreases s.len() - i,
{
    if i < s.len() && class.contains(s[i]) {
        lemma_run_end_bounds(s, i + 1, class);
    }
}

/// A comment ends past where its end is looked for, and within the input.
proof fn lemma_comment_end_bounds(s: Seq<char>, k: int)
    requires
        0 <= k,
    ensures
        comment_end(s, k) < 0 || k + 2 <= comment_end(s, k) <= s.len(),
    decreases s.len() - k,
{
    if k + 1 < s.len() && !(s[k] == '*' && s[k + 1] == '/') {
        lemma_comment_end_bounds(s, k + 1);
    }
}

/// Appending a digit multiplies the value by the radix and adds the digit.
proof fn lemma_digits_push(d: Seq<char>, c: char, radix: nat)
    ensures
        digits_value(d.push(c), radix) == digits_value(d, radix) * radix + digit_of(c),
{
    assert(d.push(c).drop_last() =~= d);
}

/// The value of a hexadecimal or octal digit.
fn digit_value(c: char) -> (r: u32)
    ensures
        r == digit_of(c),
        r < 16,
{
    if '0' <= c && c <= '9' {
        (c as u32) - ('0' as u32)
    } else if 'a' <= c && c <= 'f' {
        (c as u32) - ('a' as u32) + 10
    } else if 'A' <= c && c <= 'F' {
        (c as u32) - ('A' as u32) + 10
    } else {
        0
    }
}

/// A tokenizer over a sequence of characters.
pub struct Tokenizer {
    reader: Vec<char>,
    pos: usize,
    lexemes: Lexemes,
}

impl Tokenizer {
    /// The position lies within the input and the tables are those of the language.
    pub closed spec fn wf(&self) -> bool {
        self.pos <= self.reader.len() && self.lexemes.wf()
    }

    /// The whole input.
    pub closed spec fn input(&self) -> Seq<char> {
        self.reader@
    }

    /// The index of the next character to read.
    pub closed spec fn position(&self) -> int {
        self.pos as int
    }

    /// A well-formed tokenizer stands within its input.
    pub proof fn lemma_position_in_input(&self)
        requires
            self.wf(),
        ensures
            0 <= self.position() <= self.input().len(),
    {
    }

    /// A tokenizer at the start of `reader`.
    pub fn new(reader: Vec<char>) -> (r: Tokenizer)
        ensures
            r.wf(),
            r.input() == reader@,
            r.position() == 0,
    {
        Tokenizer { reader: reader, pos: 0, lexemes: Lexemes::default() }
    }

    /// Steps back over the character `c` just read.
    fn push_back(&mut self, c: char) -> (r: bool)
        requires
            old(self).wf(),
            0 < old(self).pos,
            old(self).reader@[old(self).pos - 1] == c,
        ensures
            r,
            final(self).wf(),
            final(self).reader == old(self).reader,
            final(self).pos == old(self).pos - 1,
    {
        self.pos = self.pos - 1;
        true
    }

    /// Reads the next character, if the input has one left.
    fn nextchar(&mut self) -> (r: Option<char>)
        requires
            old(self).wf(),
        ensures
            final(self).wf(),
            final(self).reader == old(self).reader,
            old(self).pos < old(self).reader.len() ==> r == Some(old(self).reader@[old(self).pos as int])
                && final(self).pos == old(self).pos + 1,
            old(self).pos >= old(self).reader.len() ==> r is None && final(self).pos == old(self).pos,
    {
        if self.pos < self.reader.len() {
            let c = self.reader[self.pos];
            self.pos = self.pos + 1;
            Some(c)
        } else {
            None
        }
    }

    /// Skips white space and reads the character after it.
    fn skip_ws(&mut self) -> (r: Option<char>)
        requires
            old(self).wf(),
        ensures
            final(self).wf(),
            final(self).reader == old(self).reader,
            ({
                let k = run_end(old(self).reader@, old(self).pos as int, ws_chars());
                &&& k >= old(self).reader.len() ==> r is None && final(self).pos == old(self).reader.len()
                &&& k < old(self).reader.len() ==> r == Some(old(self).reader@[k]) && final(self).pos == k + 1
            }),
    {
        let ghost s = self.reader@;
        let ghost p0 = self.pos as int;
        loop
            invariant
                self.wf(),
                self.reader@ == s,
                self.reader == old(self).reader,
                p0 <= self.pos <= s.len(),
                p0 == old(self).pos,
                run_end(s, p0, ws_chars()) == run_end(s, self.pos as int, ws_chars()),
            decreases s.len() - self.pos,
        {
            match self.nextchar() {
                None => {
                    return None;
                },
                Some(x) => {
                    if !char_in(&self.lexemes.ws, x) {
                        return Some(x);
                    }
                },
            }
        }
    }

    /// Reads the rest of a number or an identifier whose first character
    /// `first` was just read.
    fn read_run(&mut self, first: char, ident: bool) -> (r: String)
        requires
            old(self).wf(),
            0 < old(self).pos,
            old(self).reader@[old(self).pos - 1] == first,
        ensures
            final(self).wf(),
            final(self).reader == old(self).reader,
            final(self).pos == run_end(old(self).reader@, old(self).pos as int, if ident { ident_chars() } else { digit_chars() }),
            r@ == old(self).reader@.subrange(old(self).pos - 1, final(self).pos as int),
    {
        let ghost s = self.reader@;
        let ghost class = if ident { ident_chars() } else { digit_chars() };
        let ghost p0 = self.pos as int;
        let mut text = String::new();
        push_char(&mut text, first);
        assert(text@ =~= s.subrange(p0 - 1, p0));
        loop
            invariant
                self.wf(),
                self.reader@ == s,
                self.reader == old(self).reader,
                p0 <= self.pos <= s.len(),
                p0 == old(self).pos,
                class == if ident { ident_chars() } else { digit_chars() },
                p0 >= 1,
                run_end(s, p0, class) == run_end(s, self.pos as int, class),
                text@ == s.subrange(p0 - 1, self.pos as int),
            decreases s.len() - self.pos,
        {
            let ghost p = self.pos as int;
            match self.nextchar() {
                None => {
                    return text;
                },
                Some(c) => {
                    let inside = if ident {
                        char_in(&self.lexemes.ident, c)
                    } else {
                        char_in(&self.lexemes.digit, c)
                    };
                    if !inside {
                        self.push_back(c);
                        return text;
                    }
                    assert(c == s[p] && self.pos == p + 1);
                    let ghost before = text@;
                    assert(before == s.subrange(p0 - 1, p));
                    push_char(&mut text, c);
                    assert(text@ == before.push(c));
                    assert(text@ =~= s.subrange(p0 - 1, self.pos as int));
                },
            }
        }
    }

    /// Reads the digits of a `\x` (hexadecimal) or `\0` (octal) escape and
    /// gives the character of that code.
    fn read_escape_number(&mut self, hex: bool) -> (r: Result<char, LexError>)
        requires
            old(self).wf(),
        ensures
            final(self).wf(),
            final(self).reader == old(self).reader,
            ({
                let s = old(self).reader@;
                let start = old(self).pos as int;
                let radix: nat = if hex { 16 } else { 8 };
                let end = run_end(s, start, if hex { hex_digit_chars() } else { oct_digit_chars() });
                let value = digits_value(s.subrange(start, end), radix);
                &&& end >= s.len() ==> r == Err::<char, LexError>(LexError::UnexpectedEof)
                &&& end < s.len() && (end == start || value > 255) ==> r == Err::<char, LexError>(LexError::BadEscape)
                &&& end < s.len() && end != start && value <= 255 ==> r == Ok::<char, LexError>((value as u8) as char) && final(self).pos == end
            }),
    {
        let ghost s = self.reader@;
        let ghost class = if hex { hex_digit_chars() } else { oct_digit_chars() };
        let ghost p0 = self.pos as int;
        let start: usize = self.pos;
        let radix: u32 = if hex { 16 } else { 8 };
        let mut value: u32 = 0;
        let mut too_big = false;
        proof {
            lemma_run_end_bounds(s, p0, class);
            assert(s.subrange(p0, p0) =~= Seq::<char>::empty());
        }
        loop
            invariant
                self.wf(),
                self.reader@ == s,
                self.reader == old(self).reader,
                p0 <= self.pos <= s.len(),
                p0 == old(self).pos,
                start == p0,
                radix == if hex { 16u32 } else { 8u32 },
                class == if hex { hex_digit_chars() } else { oct_digit_chars() },
                run_end(s, p0, class) == run_end(s, self.pos as int, class),
                !too_big ==> value == digits_value(s.subrange(p0, self.pos as int), radix as nat) && value <= 255,
                too_big ==> digits_value(s.subrange(p0, self.pos as int), radix as nat) > 255,
            decreases s.len() - self.pos,
        {
            match self.nextchar() {
                None => {
                    return Err(LexError::UnexpectedEof);
                },
                Some(c) => {
                    let inside = if hex {
                        char_in(&self.lexemes.hex_digit, c)
                    } else {
                        char_in(&self.lexemes.oct_digit, c)
                    };
                    if !inside {
                        self.push_back(c);
                        if self.pos == start || too_big {
                            return Err(LexError::BadEscape);
                        }
                        return Ok((value as u8) as char);
                    }
                    let ghost d = s.subrange(p0, self.pos - 1);
                    assert(s.subrange(p0, self.pos as int) =~= d.push(c));
                    proof { lemma_digits_push(d, c, radix as nat); }
                    let dv = digit_value(c);
                    if too_big {
                        let ghost v = digits_value(d, radix as nat);
                        assert(v * (radix as nat) >= v) by (nonlinear_arith)
                            requires radix >= 1;
                    } else {
                        assert(value * radix <= 255 * 16) by (nonlinear_arith)
                            requires value <= 255, radix <= 16;
                        let next = value * radix + dv;
                        if next > 255 {
                            too_big = true;
                        } else {
                            value = next;
                        }
                    }
                },
            }
        }
    }

    /// Reads the body of a string closed by `q`, whose opening quote was just read.
    fn read_string(&mut self, q: char) -> (r: Result<String, LexError>)
        requires
            old(self).wf(),
            q == '"' || q == '\'',
        ensures
            final(self).wf(),
            final(self).reader == old(self).reader,
            match r {
                Ok(v) => lex_string(old(self).reader@, old(self).pos as int, q, Seq::empty())
                    == Ok::<(Seq<char>, int), LexError>((v@, final(self).pos as int)),
                Err(x) => lex_string(old(self).reader@, old(self).pos as int, q, Seq::empty())
                    == Err::<(Seq<char>, int), LexError>(x),
            },
    {
        let ghost s = self.reader@;
        let ghost p0 = self.pos as int;
        let mut value = String::new();
        loop
            invariant
                self.wf(),
                self.reader@ == s,
                self.reader == old(self).reader,
                p0 == old(self).pos,
                q == '"' || q == '\'',
                p0 <= self.pos <= s.len(),
                lex_string(s, p0, q, Seq::empty()) == lex_string(s, self.pos as int, q, value@),
            decreases s.len() - self.pos,
        {
            let ghost j = self.pos as int;
            let ic = match self.nextchar() {
                None => {
                    return Err(LexError::UnexpectedEof);
                },
                Some(ic) => ic,
            };
            if ic == q {
                return Ok(value);
            }
            if ic == self.lexemes.escape {
                let ty = match self.nextchar() {
                    None => {
                        return Err(LexError::UnexpectedEof);
                    },
                    Some(ty) => ty,
                };
                if ty == self.lexemes.esc_hex || ty == self.lexemes.esc_oct {
                    let hex = ty == self.lexemes.esc_hex;
                    proof {
                        lemma_run_end_bounds(s, j + 2, if hex { hex_digit_chars() } else { oct_digit_chars() });
                    }
                    match self.read_escape_number(hex) {
                        Ok(ch) => {
                            push_char(&mut value, ch);
                        },
                        Err(x) => {
                            return Err(x);
                        },
                    }
                } else {
                    let e = self.lexemes.escaped(ty);
                    push_char(&mut value, e);
                }
            } else {
                push_char(&mut value, ic);
            }
        }
    }

    /// Skips the rest of a block comment whose `/*` was just read; false when
    /// the input ends first.
    fn skip_comment(&mut self) -> (r: bool)
        requires
            old(self).wf(),
        ensures
            final(self).wf(),
            final(self).reader == old(self).reader,
            comment_end(old(self).reader@, old(self).pos as int) < 0 ==> !r && final(self).pos == old(self).reader.len(),
            comment_end(old(self).reader@, old(self).pos as int) >= 0 ==> r && final(self).pos == comment_end(old(self).reader@, old(self).pos as int),
    {
        let ghost s = self.reader@;
        let ghost p0 = self.pos as int;
        loop
            invariant
                self.wf(),
                self.reader@ == s,
                self.reader == old(self).reader,
                p0 == old(self).pos,
                p0 <= self.pos <= s.len(),
                comment_end(s, p0) == comment_end(s, self.pos as int),
            decreases s.len() - self.pos,
        {
            match self.nextchar() {
                None => {
                    return false;
                },
                Some(j) => {
                    if j == '*' {
                        match self.nextchar() {
                            None => {
                                return false;
                            },
                            Some(k) => {
                                if k == '/' {
                                    return true;
                                }
                                self.push_back(k);
                            },
                        }
                    }
                },
            }
        }
    }

    /// Reads the next token: `EOF` at the end of the input (also inside an
    /// unclosed comment), or the error that stops the input from being read.
    pub fn nexttoken(&mut self) -> (r: Result<Token, LexError>)
        requires
            old(self).wf(),
        ensures
            final(self).wf(),
            final(self).input() == old(self).input(),
            match r {
                Ok(t) => lex(old(self).input(), old(self).position())
                    == (Ok::<TokenV, LexError>(t@), final(self).position()),
                Err(x) => lex(old(self).input(), old(self).position()).0 == Err::<TokenV, LexError>(x),
            },
        decreases old(self).input().len() - old(self).position(),
    {
        let ghost s = self.reader@;
        let ghost i0 = self.pos as int;
        proof {
            lemma_run_end_bounds(s, i0, ws_chars());
        }
        let c = match self.skip_ws() {
            None => {
                return Ok(Token::EOF);
            },
            Some(c) => c,
        };
        let ghost k = self.pos - 1;
        assert(k == run_end(s, i0, ws_chars()) && s[k] == c);
        if char_in(&self.lexemes.str_grp, c) {
            assert(c == '"' || c == '\'');
            return match self.read_string(c) {
                Ok(v) => Ok(Token::STRING(v)),
                Err(x) => Err(x),
            };
        }
        if char_in(&self.lexemes.punct, c) {
            if c == '/' {
                match self.nextchar() {
                    None => {
                        return Ok(Token::OPER(c));
                    },
                    Some(ic) => {
                        if ic == '*' {
                            proof {
                                lemma_comment_end_bounds(s, k + 2);
                            }
                            if self.skip_comment() {
                                return self.nexttoken();
                            } else {
                                return Ok(Token::EOF);
                            }
                        }
                        self.push_back(ic);
                    },
                }
            }
            return Ok(Token::OPER(c));
        }
        if char_in(&self.lexemes.digit, c) {
            proof {
                lemma_run_end_bounds(s, k + 1, digit_chars());
            }
            let text = self.read_run(c, false);
            return Ok(Token::NUM(text));
        }
        if char_in(&self.lexemes.ident_start, c) {
            proof {
                lemma_run_end_bounds(s, k + 1, ident_chars());
            }
            let text = self.read_run(c, true);
            return Ok(Token::IDENT(text));
        }
        Err(LexError::UnexpectedChar(c))
    }
}

/// Whether `c` occurs in `s`.
fn char_in(s: &Vec<char>, c: char) -> (r: bool)
    ensures
        r == s@.contains(c),
{
    let mut i: usize = 0;
    while i < s.len()
        invariant
            i <= s.len(),
            forall|k: int| 0 <= k < i ==> s@[k] != c,
        decreases s.len() - i,
    {
        if s[i] == c {
            assert(s@[i as int] == c);
            return true;
        }
        i = i + 1;
    }
    false
}

} // verus!
