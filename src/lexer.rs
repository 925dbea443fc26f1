//! The scanner: turns source text into tokens, one at a time.
use vstd::prelude::*;
use crate::cursor::{char_at, Cursor, EOF_CHAR};
use crate::token::{Token, TokenKind};
use crate::value::string_from_chars;

verus! {

/// Pattern_White_Space: a fixed set of characters that separate tokens.
pub open spec fn whitespace(c: char) -> bool {
    c == '\u{0009}' || c == '\u{000A}' || c == '\u{000B}' || c == '\u{000C}' || c == '\u{000D}'
        || c == '\u{0020}' || c == '\u{0085}' || c == '\u{200E}' || c == '\u{200F}' || c
        == '\u{2028}' || c == '\u{2029}'
}

pub open spec fn ascii_letter(c: char) -> bool {
    ('a' <= c && c <= 'z') || ('A' <= c && c <= 'Z')
}

pub open spec fn ascii_digit(c: char) -> bool {
    '0' <= c && c <= '9'
}

/// Whether a character above U+007F has the Unicode property XID_Start.
pub uninterp spec fn xid_start(c: char) -> bool;

/// Whether a character above U+007F has the Unicode property XID_Continue.
pub uninterp spec fn xid_continue(c: char) -> bool;

/// Relies on `unicode_xid::UnicodeXID::is_xid_start`: ASCII letters by its
/// fast path, no other ASCII character, and above U+007F the XID_Start table.
#[verifier::external_body]
fn is_xid_start(c: char) -> (r: bool)
    ensures
        r == (ascii_letter(c) || (c > '\u{7f}' && xid_start(c))),
{
    unicode_xid::UnicodeXID::is_xid_start(c)
}

/// Relies on `unicode_xid::UnicodeXID::is_xid_continue`: ASCII letters,
/// digits and `_` by its fast path, no other ASCII character, and above
/// U+007F the XID_Continue table.
#[verifier::external_body]
fn is_xid_continue(c: char) -> (r: bool)
    ensures
        r == (ascii_letter(c) || ascii_digit(c) || c == '_' || (c > '\u{7f}' && xid_continue(c))),
{
    unicode_xid::UnicodeXID::is_xid_continue(c)
}

/// An identifier starts with `_` or an XID_Start character.
pub open spec fn ident_start(c: char) -> bool {
    c == '_' || ascii_letter(c) || (c > '\u{7f}' && xid_start(c))
}

/// An identifier goes on with XID_Continue characters.
pub open spec fn ident_continue(c: char) -> bool {
    ascii_letter(c) || ascii_digit(c) || c == '_' || (c > '\u{7f}' && xid_continue(c))
}

pub fn is_whitespace(c: char) -> (r: bool)
    ensures
        r == whitespace(c),
{
    c == '\u{0009}' || c == '\u{000A}' || c == '\u{000B}' || c == '\u{000C}' || c == '\u{000D}'
        || c == '\u{0020}' || c == '\u{0085}' || c == '\u{200E}' || c == '\u{200F}' || c
        == '\u{2028}' || c == '\u{2029}'
}

pub fn is_ident_start(c: char) -> (r: bool)
    ensures
        r == ident_start(c),
{
    c == '_' || is_xid_start(c)
}

pub fn is_ident_continue(c: char) -> (r: bool)
    ensures
        r == ident_continue(c),
{
    is_xid_continue(c)
}

fn is_digit(c: char) -> (r: bool)
    ensures
        r == ascii_digit(c),
{
    '0' <= c && c <= '9'
}

/// The value of a string of decimal digits.
pub open spec fn digits_value(s: Seq<char>) -> int
    decreases s.len(),
{
    if s.len() == 0 {
        0
    } else {
        digits_value(s.drop_last()) * 10 + (s.last() as int - '0' as int)
    }
}

/// The token that a character makes on its own, if any.
pub open spec fn single(c: char) -> Option<TokenKind> {
    if c == '+' {
        Some(TokenKind::Plus)
    } else if c == '-' {
        Some(TokenKind::Minus)
    } else if c == '*' {
        Some(TokenKind::Star)
    } else if c == '/' {
        Some(TokenKind::Slash)
    } else if c == ',' {
        Some(TokenKind::Comma)
    } else if c == '.' {
        Some(TokenKind::Dot)
    } else if c == ';' {
        Some(TokenKind::Semi)
    } else if c == '(' {
        Some(TokenKind::OpenParen)
    } else if c == ')' {
        Some(TokenKind::CloseParen)
    } else if c == '{' {
        Some(TokenKind::OpenBrace)
    } else if c == '}' {
        Some(TokenKind::CloseBrace)
    } else {
        None
    }
}

/// The token that an operator character makes, given the character after
/// it, and how many characters it takes: `!=`, `==`, `>=`, `<=`, `||` and
/// `&&` take two; a lone `|` or `&` is an `Error`.
pub open spec fn operator(c: char, next: char) -> Option<(TokenKind, int)> {
    if c == '!' {
        Some(if next == '=' { (TokenKind::BangEq, 2) } else { (TokenKind::Bang, 1) })
    } else if c == '=' {
        Some(if next == '=' { (TokenKind::EqEq, 2) } else { (TokenKind::Eq, 1) })
    } else if c == '>' {
        Some(if next == '=' { (TokenKind::GtE, 2) } else { (TokenKind::Gt, 1) })
    } else if c == '<' {
        Some(if next == '=' { (TokenKind::LtE, 2) } else { (TokenKind::Lt, 1) })
    } else if c == '|' {
        Some(if next == '|' { (TokenKind::Or, 2) } else { (TokenKind::Error, 1) })
    } else if c == '&' {
        Some(if next == '&' { (TokenKind::And, 2) } else { (TokenKind::Error, 1) })
    } else {
        None
    }
}

/// The keyword or literal word spelled by `s`, if any.
pub open spec fn keyword(s: Seq<char>) -> Option<TokenKind> {
    if s == seq!['l', 'e', 't'] {
        Some(TokenKind::Let)
    } else if s == seq!['i', 'f'] {
        Some(TokenKind::If)
    } else if s == seq!['e', 'l', 's', 'e'] {
        Some(TokenKind::Else)
    } else if s == seq!['f', 'o', 'r'] {
        Some(TokenKind::For)
    } else if s == seq!['w', 'h', 'i', 'l', 'e'] {
        Some(TokenKind::While)
    } else if s == seq!['f', 'n'] {
        Some(TokenKind::Fun)
    } else if s == seq!['r', 'e', 't', 'u', 'r', 'n'] {
        Some(TokenKind::Return)
    } else if s == seq!['t', 'r', 'u', 'e'] {
        Some(TokenKind::True)
    } else if s == seq!['f', 'a', 'l', 's', 'e'] {
        Some(TokenKind::False)
    } else if s == seq!['n', 'i', 'l'] {
        Some(TokenKind::Nil)
    } else {
        None
    }
}

fn spelled(s: &Vec<char>, w: &[char]) -> (r: bool)
    ensures
        r == (s@ == w@),
{
    if s.len() != w.len() {
        return false;
    }
    let mut i: usize = 0;
    while i < s.len()
        invariant
            s@.len() == w@.len(),
            i <= s@.len(),
            forall|k: int| 0 <= k < i ==> s@[k] == w@[k],
        decreases s@.len() - i,
    {
        if s[i] != w[i] {
            return false;
        }
        i = i + 1;
    }
    assert(s@ =~= w@);
    true
}

fn keyword_of(s: &Vec<char>) -> (r: Option<TokenKind>)
    ensures
        r == keyword(s@),
{
    if spelled(s, &['l', 'e', 't']) {
        assert(['l', 'e', 't']@ =~= seq!['l', 'e', 't']);
        Some(TokenKind::Let)
    } else if spelled(s, &['i', 'f']) {
        assert(['i', 'f']@ =~= seq!['i', 'f']);
        assert(s@ != seq!['l', 'e', 't']);
        Some(TokenKind::If)
    } else if spelled(s, &['e', 'l', 's', 'e']) {
        assert(['e', 'l', 's', 'e']@ =~= seq!['e', 'l', 's', 'e']);
        Some(TokenKind::Else)
    } else if spelled(s, &['f', 'o', 'r']) {
        assert(['f', 'o', 'r']@ =~= seq!['f', 'o', 'r']);
        assert(s@ != seq!['l', 'e', 't']);
        Some(TokenKind::For)
    } else if spelled(s, &['w', 'h', 'i', 'l', 'e']) {
        assert(['w', 'h', 'i', 'l', 'e']@ =~= seq!['w', 'h', 'i', 'l', 'e']);
        Some(TokenKind::While)
    } else if spelled(s, &['f', 'n']) {
        assert(['f', 'n']@ =~= seq!['f', 'n']);
        assert(s@ != seq!['i', 'f']);
        Some(TokenKind::Fun)
    } else if spelled(s, &['r', 'e', 't', 'u', 'r', 'n']) {
        assert(['r', 'e', 't', 'u', 'r', 'n']@ =~= seq!['r', 'e', 't', 'u', 'r', 'n']);
        Some(TokenKind::Return)
    } else if spelled(s, &['t', 'r', 'u', 'e']) {
        assert(['t', 'r', 'u', 'e']@ =~= seq!['t', 'r', 'u', 'e']);
        assert(s@ != seq!['e', 'l', 's', 'e']);
        Some(TokenKind::True)
    } else if spelled(s, &['f', 'a', 'l', 's', 'e']) {
        assert(['f', 'a', 'l', 's', 'e']@ =~= seq!['f', 'a', 'l', 's', 'e']);
        assert(s@ != seq!['w', 'h', 'i', 'l', 'e']);
        Some(TokenKind::False)
    } else if spelled(s, &['n', 'i', 'l']) {
        assert(['n', 'i', 'l']@ =~= seq!['n', 'i', 'l']);
        assert(s@ != seq!['l', 'e', 't']);
        assert(s@ != seq!['f', 'o', 'r']);
        Some(TokenKind::Nil)
    } else {
        assert(['l', 'e', 't']@ =~= seq!['l', 'e', 't']);
        assert(['i', 'f']@ =~= seq!['i', 'f']);
        assert(['e', 'l', 's', 'e']@ =~= seq!['e', 'l', 's', 'e']);
        assert(['f', 'o', 'r']@ =~= seq!['f', 'o', 'r']);
        assert(['w', 'h', 'i', 'l', 'e']@ =~= seq!['w', 'h', 'i', 'l', 'e']);
        assert(['f', 'n']@ =~= seq!['f', 'n']);
        assert(['r', 'e', 't', 'u', 'r', 'n']@ =~= seq!['r', 'e', 't', 'u', 'r', 'n']);
        assert(['t', 'r', 'u', 'e']@ =~= seq!['t', 'r', 'u', 'e']);
        assert(['f', 'a', 'l', 's', 'e']@ =~= seq!['f', 'a', 'l', 's', 'e']);
        assert(['n', 'i', 'l']@ =~= seq!['n', 'i', 'l']);
        None
    }
}

impl Cursor {
    /// Scans the next token, after skipping whitespace. At the end of the
    /// text it gives `Eof`; a character that starts no token gives `Error`.
    pub fn advance_token(&mut self) -> (r: Token)
        requires
            old(self).wf(),
        ensures
            final(self).wf(),
            final(self).rest().len() <= old(self).rest().len(),
            r.kind is Eof <==> final(self).rest().len() == 0 && old(self).rest().len()
                == final(self).rest().len() + skipped(old(self).rest()),
            !(r.kind is Eof) ==> final(self).rest().len() < old(self).rest().len(),
            ({
                let t = old(self).rest().subrange(
                    skipped(old(self).rest()) as int,
                    old(self).rest().len() as int,
                );
                &&& t.len() > 0 && single(t[0]) is Some ==> r.kind == single(t[0]).unwrap()
                    && final(self).rest() == t.drop_first()
                &&& t.len() > 0 && operator(t[0], char_at(t, 1)) is Some ==> {
                    let (k, w) = operator(t[0], char_at(t, 1)).unwrap();
                    r.kind == k && final(self).rest() == t.subrange(w, t.len() as int)
                }
                &&& t.len() > 0 && ident_start(t[0]) ==> {
                    let word = t.subrange(0, t.len() - final(self).rest().len());
                    &&& !ident_continue(char_at(final(self).rest(), 0))
                    &&& match keyword(word) {
                        Some(k) => r.kind == k,
                        None => r.kind matches TokenKind::Ident { name } && name@ == word,
                    }
                }
                &&& t.len() > 0 && ascii_digit(t[0]) ==> {
                    &&& r.kind is Int || r.kind is Decimal || r.kind is Error
                    &&& r.kind matches TokenKind::Int { value } ==> value == digits_value(
                        t.subrange(0, t.len() - final(self).rest().len()),
                    )
                }
                &&& t.len() > 0 && t[0] == '"' ==> {
                    &&& r.kind is Str || r.kind is Error
                    &&& r.kind matches TokenKind::Str { value } ==> t == seq!['"'] + value@
                        + seq!['"'] + final(self).rest()
                }
            }),
    {
        self.skip_space();
        let ghost after_space = self.rest();
        let at_end = self.is_eof();
        let start_char = self.bump();
        let ghost t1 = self.rest();
        proof {
            if after_space.len() > 0 {
                assert(t1 =~= after_space.subrange(1, after_space.len() as int));
                if t1.len() > 0 {
                    assert(t1.drop_first() =~= after_space.subrange(2, after_space.len() as int));
                    assert(char_at(t1, 0) == char_at(after_space, 1));
                }
            }
        }
        let kind = if start_char == '+' {
            TokenKind::Plus
        } else if start_char == '-' {
            TokenKind::Minus
        } else if start_char == '*' {
            TokenKind::Star
        } else if start_char == '/' {
            TokenKind::Slash
        } else if start_char == ',' {
            TokenKind::Comma
        } else if start_char == '.' {
            TokenKind::Dot
        } else if start_char == ';' {
            TokenKind::Semi
        } else if start_char == '(' {
            TokenKind::OpenParen
        } else if start_char == ')' {
            TokenKind::CloseParen
        } else if start_char == '{' {
            TokenKind::OpenBrace
        } else if start_char == '}' {
            TokenKind::CloseBrace
        } else if start_char == '!' {
            self.one_or_two('=', TokenKind::BangEq, TokenKind::Bang)
        } else if start_char == '=' {
            self.one_or_two('=', TokenKind::EqEq, TokenKind::Eq)
        } else if start_char == '>' {
            self.one_or_two('=', TokenKind::GtE, TokenKind::Gt)
        } else if start_char == '<' {
            self.one_or_two('=', TokenKind::LtE, TokenKind::Lt)
        } else if start_char == '|' {
            self.one_or_two('|', TokenKind::Or, TokenKind::Error)
        } else if start_char == '&' {
            self.one_or_two('&', TokenKind::And, TokenKind::Error)
        } else if is_ident_start(start_char) {
            let ghost t = self.rest();
            let k = self.ident_or_predefined(start_char);
            proof {
                let n = t.len() - self.rest().len();
                assert(seq![start_char] + t.subrange(0, n) =~= after_space.subrange(0, n + 1));
            }
            k
        } else if start_char == '"' {
            let ghost t = self.rest();
            proof {
                assert(after_space =~= seq!['"'] + t);
            }
            let k = self.string();
            proof {
                if k is Str {
                    assert(after_space =~= seq!['"'] + k->Str_value@ + seq!['"'] + self.rest());
                }
            }
            k
        } else if is_digit(start_char) {
            let ghost t = self.rest();
            let k = self.number(start_char);
            proof {
                let n = t.len() - self.rest().len();
                assert(seq![start_char] + t.subrange(0, n) =~= after_space.subrange(0, n + 1));
            }
            k
        } else if at_end {
            TokenKind::Eof
        } else {
            TokenKind::Error
        };
        Token::new(kind)
    }

    /// After a first character: `two` where `second` follows (and is read),
    /// else `one`.
    fn one_or_two(&mut self, second: char, two: TokenKind, one: TokenKind) -> (r: TokenKind)
        requires
            old(self).wf(),
            second != EOF_CHAR,
        ensures
            final(self).wf(),
            char_at(old(self).rest(), 0) == second ==> r == two && final(self).rest()
                == old(self).rest().drop_first(),
            char_at(old(self).rest(), 0) != second ==> r == one && final(self).rest() == old(
                self,
            ).rest(),
    {
        if self.first() == second && !self.is_eof() {
            self.bump();
            two
        } else {
            proof {
                if char_at(old(self).rest(), 0) == second {
                    assert(old(self).rest().len() > 0);
                }
            }
            one
        }
    }

    /// A number: digits, and a fraction where a `.` is followed by a digit.
    /// A whole number that does not fit in 32 bits is an `Error`.
    fn number(&mut self, start: char) -> (r: TokenKind)
        requires
            old(self).wf(),
            ascii_digit(start),
        ensures
            final(self).wf(),
            final(self).rest().len() <= old(self).rest().len(),
            r is Int || r is Decimal || r is Error,
            r matches TokenKind::Int { value } ==> {
                let lexeme = old(self).rest().subrange(
                    0,
                    old(self).rest().len() - final(self).rest().len(),
                );
                &&& value == digits_value(seq![start] + lexeme)
                &&& forall|i: int| 0 <= i < lexeme.len() ==> ascii_digit(#[trigger] lexeme[i])
                &&& !ascii_digit(char_at(final(self).rest(), 0))
            },
    {
        let mut lexeme: Vec<char> = Vec::new();
        lexeme.push(start);
        let mut value: i64 = (start as u32 - '0' as u32) as i64;
        let ghost r0 = self.rest();
        assert(lexeme@.drop_last() =~= Seq::<char>::empty());
        assert(digits_value(lexeme@) == digits_value(Seq::<char>::empty()) * 10 + (start as int - '0' as int));
        assert(lexeme@ =~= seq![start] + r0.subrange(0, 0));
        while is_digit(self.first()) && !self.is_eof()
            invariant
                self.wf(),
                r0 == old(self).rest(),
                self.rest().len() <= r0.len(),
                self.rest() == r0.subrange(r0.len() - self.rest().len(), r0.len() as int),
                lexeme@ == seq![start] + r0.subrange(0, r0.len() - self.rest().len()),
                forall|i: int|
                    0 <= i < r0.len() - self.rest().len() ==> ascii_digit(#[trigger] r0[i]),
                0 <= value <= 0x7fff_ffff + 1,
                value <= 0x7fff_ffff ==> value == digits_value(lexeme@),
                value > 0x7fff_ffff ==> digits_value(lexeme@) > 0x7fff_ffff,
            decreases self.rest().len(),
        {
            let ghost k = r0.len() - self.rest().len();
            let ghost before = lexeme@;
            let c = self.bump();
            lexeme.push(c);
            proof {
                assert(lexeme@.drop_last() == before);
                assert(r0[k] == c);
                assert(lexeme@ =~= seq![start] + r0.subrange(0, k + 1));
                assert(self.rest() =~= r0.subrange(k + 1, r0.len() as int));
            }
            if value <= 0x7fff_ffff {
                let v = value * 10 + (c as u32 - '0' as u32) as i64;
                value = if v > 0x7fff_ffff {
                    0x8000_0000
                } else {
                    v
                };
            } else {
                proof {
                    assert(digits_value(lexeme@) >= digits_value(before) * 10);
                }
            }
        }
        if self.first() == '.' && is_digit(self.second()) {
            lexeme.push(self.bump());
            while is_digit(self.first()) && !self.is_eof()
                invariant
                    self.wf(),
                    self.rest().len() <= old(self).rest().len(),
                decreases self.rest().len(),
            {
                lexeme.push(self.bump());
            }
            return TokenKind::Decimal { lexeme: string_from_chars(&lexeme) };
        }
        if value > 0x7fff_ffff {
            TokenKind::Error
        } else {
            TokenKind::Int { value: value as i32 }
        }
    }

    /// A string: the characters up to the closing `"`, which is read too.
    /// Without a closing `"` it is an `Error`.
    fn string(&mut self) -> (r: TokenKind)
        requires
            old(self).wf(),
        ensures
            final(self).wf(),
            final(self).rest().len() <= old(self).rest().len(),
            r is Str || r is Error,
            r matches TokenKind::Str { value } ==> old(self).rest() == value@ + seq!['"']
                + final(self).rest(),
    {
        let mut lexeme: Vec<char> = Vec::new();
        let ghost r0 = self.rest();
        assert(r0.subrange(0, 0) =~= Seq::<char>::empty());
        assert(r0.subrange(0, r0.len() as int) =~= r0);
        while self.first() != EOF_CHAR && self.first() != '"'
            invariant
                self.wf(),
                r0 == old(self).rest(),
                self.rest().len() <= r0.len(),
                self.rest() == r0.subrange(r0.len() - self.rest().len(), r0.len() as int),
                lexeme@ == r0.subrange(0, r0.len() - self.rest().len()),
            decreases self.rest().len(),
        {
            let ghost k = r0.len() - self.rest().len();
            let c = self.bump();
            lexeme.push(c);
            proof {
                assert(lexeme@ =~= r0.subrange(0, k + 1));
                assert(self.rest() =~= r0.subrange(k + 1, r0.len() as int));
            }
        }
        if self.first() == EOF_CHAR {
            return TokenKind::Error;
        }
        let ghost k = r0.len() - self.rest().len();
        self.bump();
        proof {
            assert(r0 =~= lexeme@ + seq!['"'] + self.rest());
        }
        TokenKind::Str { value: string_from_chars(&lexeme) }
    }

    /// An identifier, or the keyword or literal word it spells.
    fn ident_or_predefined(&mut self, start: char) -> (r: TokenKind)
        requires
            old(self).wf(),
        ensures
            final(self).wf(),
            final(self).rest().len() <= old(self).rest().len(),
            ({
                let word = seq![start] + old(self).rest().subrange(
                    0,
                    old(self).rest().len() - final(self).rest().len(),
                );
                &&& !ident_continue(char_at(final(self).rest(), 0))
                &&& match keyword(word) {
                    Some(k) => r == k,
                    None => r matches TokenKind::Ident { name } && name@ == word,
                }
            }),
    {
        let mut lexeme: Vec<char> = Vec::new();
        lexeme.push(start);
        let ghost r0 = self.rest();
        assert(lexeme@ =~= seq![start] + r0.subrange(0, 0));
        assert(r0.subrange(0, r0.len() as int) =~= r0);
        while is_ident_continue(self.first())
            invariant
                self.wf(),
                r0 == old(self).rest(),
                self.rest().len() <= r0.len(),
                self.rest() == r0.subrange(r0.len() - self.rest().len(), r0.len() as int),
                lexeme@ == seq![start] + r0.subrange(0, r0.len() - self.rest().len()),
            decreases self.rest().len(),
        {
            let ghost k = r0.len() - self.rest().len();
            proof {
                // EOF_CHAR is no identifier character, so the text goes on
                assert(!ident_continue(EOF_CHAR));
            }
            let c = self.bump();
            lexeme.push(c);
            proof {
                assert(lexeme@ =~= seq![start] + r0.subrange(0, k + 1));
                assert(self.rest() =~= r0.subrange(k + 1, r0.len() as int));
            }
        }
        match keyword_of(&lexeme) {
            Some(k) => k,
            None => TokenKind::Ident { name: string_from_chars(&lexeme) },
        }
    }

    /// Skips whitespace.
    pub fn skip_space(&mut self)
        requires
            old(self).wf(),
        ensures
            final(self).wf(),
            old(self).rest().len() == final(self).rest().len() + skipped(old(self).rest()),
            final(self).rest() == old(self).rest().subrange(
                skipped(old(self).rest()) as int,
                old(self).rest().len() as int,
            ),
    {
        let ghost r0 = self.rest();
        self.eat_while(|c: char| -> (r: bool)
            ensures
                r == whitespace(c),
            { is_whitespace(c) });
        proof {
            let k = choose|k: int|
                0 <= k <= r0.len() && #[trigger] r0.subrange(k, r0.len() as int) == self.rest()
                    && self.loc() == crate::cursor::moved_over(old(self).loc(), r0.subrange(0, k))
                    && (forall|i: int| 0 <= i < k ==> whitespace(r0[i]));
            lemma_skipped(r0, k);
        }
    }
}

/// The tokens of `input`, up to its end (no `Eof` token is included).
pub fn tokenize(input: &str) -> (r: Vec<Token>)
    ensures
        forall|i: int| 0 <= i < r@.len() ==> !(#[trigger] r@[i].kind is Eof),
{
    let mut cursor = Cursor::new(input);
    let mut tokens: Vec<Token> = Vec::new();
    loop
        invariant
            cursor.wf(),
            forall|i: int| 0 <= i < tokens@.len() ==> !(#[trigger] tokens@[i].kind is Eof),
        decreases cursor.rest().len(),
    {
        let token = cursor.advance_token();
        if matches!(token.kind, TokenKind::Eof) {
            return tokens;
        }
        tokens.push(token);
    }
}

/// How many whitespace characters `s` starts with.
pub open spec fn skipped(s: Seq<char>) -> nat
    decreases s.len(),
{
    if s.len() > 0 && whitespace(s[0]) {
        1 + skipped(s.drop_first())
    } else {
        0
    }
}

proof fn lemma_skipped(s: Seq<char>, k: int)
    requires
        0 <= k <= s.len(),
        forall|i: int| 0 <= i < k ==> whitespace(s[i]),
        k == s.len() || !whitespace(s[k]),
    ensures
        skipped(s) == k,
    decreases k,
{
    if k > 0 {
        lemma_skipped(s.drop_first(), k - 1);
    }
}

} // verus!
