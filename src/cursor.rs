//! A cursor over source text that tracks the line and column it stands at.
use vstd::prelude::*;
use crate::location::Location;

verus! {

/// What the cursor reads past the end of the text.
pub const EOF_CHAR: char = '\0';

/// The location after reading `c` at `l`: a newline moves to the next line,
/// any other character one column to the right.
pub open spec fn moved(l: Location, c: char) -> Location {
    if c == '\n' {
        Location {
            line: if l.line < usize::MAX {
                (l.line + 1) as usize
            } else {
                l.line
            },
            ..l
        }
    } else {
        Location {
            column: if l.column < usize::MAX {
                (l.column + 1) as usize
            } else {
                l.column
            },
            ..l
        }
    }
}

/// The location after reading the characters of `s` in turn.
pub open spec fn moved_over(l: Location, s: Seq<char>) -> Location
    decreases s.len(),
{
    if s.len() == 0 {
        l
    } else {
        moved(moved_over(l, s.drop_last()), s.last())
    }
}

/// The `i`-th character of `s`, or `EOF_CHAR` past its end.
pub open spec fn char_at(s: Seq<char>, i: int) -> char {
    if 0 <= i < s.len() {
        s[i]
    } else {
        EOF_CHAR
    }
}

/// Relies on `str::chars`: the characters of the text, in order.
#[verifier::external_body]
fn chars_of(input: &str) -> (r: Vec<char>)
    ensures
        r@ == input@,
{
    input.chars().collect()
}

pub struct Cursor {
    chars: Vec<char>,
    pos: usize,
    location: Location,
}

impl Cursor {
    /// The characters not read yet.
    pub closed spec fn rest(&self) -> Seq<char> {
        self.chars@.subrange(self.pos as int, self.chars@.len() as int)
    }

    /// Where the cursor stands in the text.
    pub closed spec fn loc(&self) -> Location {
        self.location
    }

    pub closed spec fn wf(&self) -> bool {
        self.pos <= self.chars@.len()
    }

    /// A cursor at the start of `input`, at line 1, column 1.
    pub fn new(input: &str) -> (r: Cursor)
        ensures
            r.wf(),
            r.rest() == input@,
            r.loc() == (Location { line: 1, column: 1 }),
    {
        let chars = chars_of(input);
        let r = Cursor { chars, pos: 0, location: Location::default() };
        assert(r.rest() =~= input@);
        r
    }

    /// The next character, or `EOF_CHAR` at the end.
    pub fn first(&self) -> (r: char)
        requires
            self.wf(),
        ensures
            r == char_at(self.rest(), 0),
    {
        if self.pos < self.chars.len() {
            self.chars[self.pos]
        } else {
            EOF_CHAR
        }
    }

    /// The character after the next one, or `EOF_CHAR`.
    pub fn second(&self) -> (r: char)
        requires
            self.wf(),
        ensures
            r == char_at(self.rest(), 1),
    {
        if self.chars.len() - self.pos >= 2 {
            self.chars[self.pos + 1]
        } else {
            EOF_CHAR
        }
    }

    /// Reads the next character (`EOF_CHAR` at the end, where nothing is
    /// consumed) and moves the location over it.
    pub fn bump(&mut self) -> (r: char)
        requires
            old(self).wf(),
        ensures
            final(self).wf(),
            r == char_at(old(self).rest(), 0),
            final(self).rest() == if old(self).rest().len() > 0 {
                old(self).rest().drop_first()
            } else {
                old(self).rest()
            },
            final(self).loc() == moved(old(self).loc(), r),
    {
        let c = if self.pos < self.chars.len() {
            let c = self.chars[self.pos];
            self.pos = self.pos + 1;
            c
        } else {
            EOF_CHAR
        };
        if c == '\n' {
            self.location.new_line();
        } else {
            self.location.right();
        }
        assert(self.rest() =~= if old(self).rest().len() > 0 {
            old(self).rest().drop_first()
        } else {
            old(self).rest()
        });
        c
    }

    pub fn location(&self) -> (r: Location)
        ensures
            r == self.loc(),
    {
        self.location
    }

    pub fn is_eof(&self) -> (r: bool)
        requires
            self.wf(),
        ensures
            r == (self.rest().len() == 0),
    {
        self.pos >= self.chars.len()
    }

    /// Reads characters while `predicate` holds of the next one and the text
    /// is not at its end.
    pub fn eat_while<F: Fn(char) -> bool>(&mut self, predicate: F)
        requires
            old(self).wf(),
            forall|c: char| predicate.requires((c,)),
        ensures
            final(self).wf(),
            exists|k: int|
                0 <= k <= old(self).rest().len() && #[trigger] old(self).rest().subrange(
                    k,
                    old(self).rest().len() as int,
                ) == final(self).rest() && final(self).loc() == moved_over(
                    old(self).loc(),
                    old(self).rest().subrange(0, k),
                ) && (forall|i: int| 0 <= i < k ==> predicate.ensures((old(self).rest()[i],), true)),
            final(self).rest().len() == 0 || predicate.ensures((final(self).rest()[0],), false),
    {
        let ghost r0 = self.rest();
        let ghost l0 = self.loc();
        assert(r0.subrange(0, 0) =~= Seq::<char>::empty());
        assert(r0.subrange(0, r0.len() as int) =~= r0);
        loop
            invariant
                self.wf(),
                forall|c: char| predicate.requires((c,)),
                self.rest().len() <= r0.len(),
                self.rest() == r0.subrange(r0.len() - self.rest().len(), r0.len() as int),
                self.loc() == moved_over(l0, r0.subrange(0, r0.len() - self.rest().len())),
                forall|i: int|
                    0 <= i < r0.len() - self.rest().len() ==> predicate.ensures((r0[i],), true),
                r0 == old(self).rest(),
                l0 == old(self).loc(),
            decreases self.rest().len(),
        {
            let c = self.first();
            let keep = predicate(c);
            if !keep || self.is_eof() {
                proof {
                    let k = r0.len() - self.rest().len();
                    assert(r0.subrange(k, r0.len() as int) == self.rest());
                }
                return;
            }
            let ghost k = r0.len() - self.rest().len();
            self.bump();
            proof {
                assert(r0.subrange(0, k + 1).drop_last() =~= r0.subrange(0, k));
                assert(self.rest() =~= r0.subrange(k + 1, r0.len() as int));
                assert(r0[k] == c);
            }
        }
    }
}

} // verus!
