//! Lexing of schema source text into spanned tokens.
//!
//! Tokens are barewords, single- or double-quoted strings, and the four
//! punctuation marks `+ ; { }`. Spans are half-open byte-offset intervals
//! into the original text. Lexing stops at the first lexical error.

use vstd::prelude::*;
use crate::text::{is_bareword_start, is_bareword_char, is_whitespace, spec_is_bareword_char, spec_is_bareword_start};

verus! {

pub type Loc = usize;

pub type SpannedTok = (Loc, Result<Tok, LexicalError>, Loc);

#[derive(Debug, Clone, PartialEq)]
pub enum Tok {
    QString(String),
    UString(String),
    Plus,
    Semicolon,
    LBrace,
    RBrace,
}

#[derive(Debug, Copy, Clone, Eq, PartialEq, Structural)]
pub enum LexicalError {
    UnexpectedEOF,
    IllegalToken,
    IllegalStringEscape,
}

#[derive(Copy, Clone)]
pub struct LocatedChar(pub Loc, pub char);

impl LocatedChar {
    pub fn from(p: (Loc, char)) -> (r: LocatedChar)
        ensures
            r == LocatedChar(p.0, p.1),
    {
        LocatedChar(p.0, p.1)
    }

    pub fn loc(self) -> (r: Loc)
        ensures
            r == self.0,
    {
        self.0
    }

    pub fn ch(self) -> (r: char)
        ensures
            r == self.1,
    {
        self.1
    }
}

/// Byte length of a character's UTF-8 encoding.
pub open spec fn char_utf8_len(c: char) -> int {
    let u = c as u32;
    if u < 0x80 {
        1
    } else if u < 0x800 {
        2
    } else if u < 0x10000 {
        3
    } else {
        4
    }
}

/// The characters of `src` between indices `a` and `b`.
pub open spec fn chars_of(src: Seq<(usize, char)>, a: int, b: int) -> Seq<char> {
    Seq::new((b - a) as nat, |k: int| src[a + k].1)
}

/// Byte offset of the character at index `i` of `s` under UTF-8 encoding.
pub open spec fn byte_offset(s: Seq<char>, i: int) -> int
    decreases i,
{
    if i <= 0 {
        0
    } else {
        byte_offset(s, i - 1) + char_utf8_len(s[i - 1])
    }
}

/// The character table a lexer holds for an input: each character with its
/// byte offset.
pub open spec fn input_src(s: Seq<char>) -> Seq<(usize, char)> {
    Seq::new(s.len(), |i: int| (byte_offset(s, i) as usize, s[i]))
}

/// Relies on str::char_indices: yields every character of the string with
/// its byte offset, in order; each offset is the previous one plus the
/// previous character's encoded length, starting at zero. An offset plus
/// the character's encoded length never exceeds the string's byte length,
/// which fits in usize.
#[verifier::external_body]
fn char_indices_of(s: &str) -> (r: Vec<(usize, char)>)
    ensures
        r@ == input_src(s@),
        r@.len() == s@.len(),
        forall|i: int| 0 <= i < r@.len() ==> (#[trigger] r@[i]).1 == s@[i],
        forall|i: int| 0 <= i < r@.len() ==> (#[trigger] r@[i]).0 + 4 <= usize::MAX,
        forall|i: int, j: int| 0 <= i < j < r@.len() ==> (#[trigger] r@[i]).0 < (#[trigger] r@[j]).0,
        forall|i: int|
            0 <= i && i + 1 < r@.len() ==> (#[trigger] r@[i + 1]).0 == r@[i].0 + char_utf8_len(
                r@[i].1,
            ),
        r@.len() > 0 ==> r@[0].0 == 0,
{
    s.char_indices().collect()
}

/// Specification-level mirror of a token: contents as character sequences.
pub enum SpecTok {
    QString(Seq<char>),
    UString(Seq<char>),
    Plus,
    Semicolon,
    LBrace,
    RBrace,
}

/// Specification-level outcome of one lexing step: a token with its span, an
/// error with its start (and its end where the lexer pins one), or the end
/// of the input.
pub enum SpecLex {
    Tok(int, SpecTok, int),
    Error(int, LexicalError, Option<int>),
    End,
}

/// Whether an emitted token agrees with its specification mirror.
pub open spec fn tok_matches(t: Tok, s: SpecTok) -> bool {
    match (t, s) {
        (Tok::QString(u), SpecTok::QString(v)) => u@ == v,
        (Tok::UString(u), SpecTok::UString(v)) => u@ == v,
        (Tok::Plus, SpecTok::Plus) => true,
        (Tok::Semicolon, SpecTok::Semicolon) => true,
        (Tok::LBrace, SpecTok::LBrace) => true,
        (Tok::RBrace, SpecTok::RBrace) => true,
        _ => false,
    }
}

/// First index at or after `i` that does not continue a bareword.
pub open spec fn bareword_end(src: Seq<(usize, char)>, i: int) -> int
    decreases src.len() - i,
{
    if i < 0 || i >= src.len() || !crate::text::spec_is_bareword_char(src[i].1) {
        i
    } else {
        bareword_end(src, i + 1)
    }
}

/// Index just after the line break that ends a comment starting at `i`, or
/// the input's end.
pub open spec fn comment_end(src: Seq<(usize, char)>, i: int) -> int
    decreases src.len() - i,
{
    if i < 0 || i >= src.len() {
        src.len() as int
    } else if src[i].1 == '\n' {
        i + 1
    } else {
        comment_end(src, i + 1)
    }
}

/// Index of the first single quote at or after `i`, or the input's end when
/// none occurs.
pub open spec fn sq_find(src: Seq<(usize, char)>, i: int) -> int
    decreases src.len() - i,
{
    if i < 0 || i >= src.len() {
        src.len() as int
    } else if src[i].1 == '\'' {
        i
    } else {
        sq_find(src, i + 1)
    }
}

/// When the double-quoted scan from `i` fails, whether the cause is the end
/// of the input (rather than an illegal escape).
pub open spec fn dq_fail_is_eof(src: Seq<(usize, char)>, i: int) -> bool
    decreases src.len() - i,
{
    if i < 0 || i >= src.len() {
        true
    } else if src[i].1 == '"' {
        true
    } else if src[i].1 == '\\' {
        if i + 1 >= src.len() {
            false
        } else {
            let e = src[i + 1].1;
            if e == '\\' || e == '"' || e == 'n' || e == 't' {
                dq_fail_is_eof(src, i + 2)
            } else {
                false
            }
        }
    } else {
        dq_fail_is_eof(src, i + 1)
    }
}

/// When the double-quoted scan from `i` fails on an illegal escape, the
/// index of the offending backslash.
pub open spec fn dq_fail_at(src: Seq<(usize, char)>, i: int) -> int
    decreases src.len() - i,
{
    if i < 0 || i >= src.len() {
        src.len() as int
    } else if src[i].1 == '"' {
        i
    } else if src[i].1 == '\\' {
        if i + 1 >= src.len() {
            i
        } else {
            let e = src[i + 1].1;
            if e == '\\' || e == '"' || e == 'n' || e == 't' {
                dq_fail_at(src, i + 2)
            } else {
                i
            }
        }
    } else {
        dq_fail_at(src, i + 1)
    }
}

/// The next lexing step from position `pos`: the emitted item and the
/// position after it. This is the functional model of `Lexer::next`:
/// whitespace and comments are skipped, a bareword is the maximal run from
/// its first character, quoted strings end at their closing quote (the
/// single-quoted ones verbatim, the double-quoted ones escape-processed and
/// re-indented), punctuation spans its own character, and anything else is
/// an illegal token.
pub open spec fn spec_next(src: Seq<(usize, char)>, pos: int) -> (SpecLex, int)
    decreases src.len() - pos,
{
    if pos < 0 || pos >= src.len() {
        (SpecLex::End, src.len() as int)
    } else {
        let c = src[pos].1;
        let start = src[pos].0 as int;
        if crate::text::spec_is_bareword_start(c) {
            let b = bareword_end(src, pos + 1);
            (
                SpecLex::Tok(start, SpecTok::UString(chars_of(src, pos, b)), src[b - 1].0 + 1),
                b,
            )
        } else if crate::text::unicode_whitespace(c) {
            spec_next(src, pos + 1)
        } else if c == '/' {
            if pos + 1 < src.len() && src[pos + 1].1 == '/' {
                let ce = comment_end(src, pos + 2);
                if pos < ce <= src.len() {
                    spec_next(src, ce)
                } else {
                    (SpecLex::End, src.len() as int)
                }
            } else {
                (
                    SpecLex::Error(start, LexicalError::IllegalToken, Some(start + 2)),
                    if pos + 1 < src.len() {
                        pos + 2
                    } else {
                        pos + 1
                    },
                )
            }
        } else if c == '"' {
            match dq_scan(src, pos + 1) {
                Some(p) => (
                    SpecLex::Tok(
                        start,
                        SpecTok::QString(spec_dedent(p.0, line_col(src, pos + 1))),
                        src[p.1].0 + 1,
                    ),
                    p.1 + 1,
                ),
                None => if dq_fail_is_eof(src, pos + 1) {
                    (
                        SpecLex::Error(start, LexicalError::UnexpectedEOF, None),
                        src.len() as int,
                    )
                } else {
                    (
                        SpecLex::Error(start, LexicalError::IllegalStringEscape, None),
                        if dq_fail_at(src, pos + 1) + 2 <= src.len() {
                            dq_fail_at(src, pos + 1) + 2
                        } else {
                            src.len() as int
                        },
                    )
                },
            }
        } else if c == '\'' {
            let q = sq_find(src, pos + 1);
            if q < src.len() {
                (
                    SpecLex::Tok(start, SpecTok::QString(chars_of(src, pos + 1, q)), src[q].0 + 1),
                    q + 1,
                )
            } else {
                (SpecLex::Error(start, LexicalError::UnexpectedEOF, None), src.len() as int)
            }
        } else if c == ';' {
            (SpecLex::Tok(start, SpecTok::Semicolon, start + 1), pos + 1)
        } else if c == '+' {
            (SpecLex::Tok(start, SpecTok::Plus, start + 1), pos + 1)
        } else if c == '{' {
            (SpecLex::Tok(start, SpecTok::LBrace, start + 1), pos + 1)
        } else if c == '}' {
            (SpecLex::Tok(start, SpecTok::RBrace, start + 1), pos + 1)
        } else {
            (SpecLex::Error(start, LexicalError::IllegalToken, Some(start + 1)), pos + 1)
        }
    }
}

/// `bareword_end` is pinned by a run of bareword characters and its stop
/// condition.
proof fn lemma_bareword_end_from_facts(src: Seq<(usize, char)>, i: int, b: int)
    requires
        0 <= i <= b <= src.len(),
        forall|k: int| i <= k < b ==> crate::text::spec_is_bareword_char((#[trigger] src[k]).1),
        b == src.len() || !crate::text::spec_is_bareword_char(src[b].1),
    ensures
        bareword_end(src, i) == b,
    decreases b - i,
{
    if i < b {
        lemma_bareword_end_from_facts(src, i + 1, b);
    }
}

/// `sq_find` is pinned by a quote-free run and the quote (or end) after it.
proof fn lemma_sq_find_from_facts(src: Seq<(usize, char)>, i: int, q: int)
    requires
        0 <= i <= q <= src.len(),
        forall|k: int| i <= k < q ==> (#[trigger] src[k]).1 != '\'',
        q == src.len() || src[q].1 == '\'',
    ensures
        sq_find(src, i) == q,
    decreases q - i,
{
    if i < q {
        lemma_sq_find_from_facts(src, i + 1, q);
    }
}

/// Number of characters on the current line strictly before `pos`: zero at
/// the start of the input and right after each line break.
pub open spec fn line_col(src: Seq<(usize, char)>, pos: int) -> int
    decreases pos,
{
    if pos <= 0 {
        0
    } else if src[pos - 1].1 == '\n' {
        0
    } else {
        1 + line_col(src, pos - 1)
    }
}

/// What scanning a double-quoted string's body from index `i` yields: the
/// escape-processed content and the closing quote's index, or nothing when
/// the input ends first or an escape is not one of the four recognized
/// ones.
pub open spec fn dq_scan(src: Seq<(usize, char)>, i: int) -> Option<(Seq<char>, int)>
    decreases src.len() - i,
{
    if i < 0 || i >= src.len() {
        None
    } else {
        let c = src[i].1;
        if c == '"' {
            Some((Seq::empty(), i))
        } else if c == '\\' {
            if i + 1 >= src.len() {
                None
            } else {
                let e = src[i + 1].1;
                let m = if e == '\\' {
                    Some('\\')
                } else if e == '"' {
                    Some('"')
                } else if e == 'n' {
                    Some('\n')
                } else if e == 't' {
                    Some('\t')
                } else {
                    None::<char>
                };
                match m {
                    None => None,
                    Some(mc) => match dq_scan(src, i + 2) {
                        None => None,
                        Some(p) => Some((seq![mc] + p.0, p.1)),
                    },
                }
            }
        } else {
            match dq_scan(src, i + 1) {
                None => None,
                Some(p) => Some((seq![c] + p.0, p.1)),
            }
        }
    }
}

/// A punctuation token's span covers exactly one source occurrence of its
/// character, lying between the two cursor positions.
pub open spec fn punct_token_law(from: int, lx: Lexer, start: usize, end: usize, c: char) -> bool {
    exists|a: int|
        from <= a < lx.cursor() && start == (#[trigger] lx.src()[a]).0 && end == lx.src()[a].0 + 1
            && lx.src()[a].1 == c
}

pub struct Lexer {
    chars: Vec<(usize, char)>,
    pos: usize,
    line_loc: usize,
}

impl Lexer {
    /// The characters of the input, each with its byte offset.
    pub closed spec fn src(self) -> Seq<(usize, char)> {
        self.chars@
    }

    /// Index of the next unread character.
    pub closed spec fn cursor(self) -> int {
        self.pos as int
    }

    /// Number of unread characters.
    pub open spec fn remaining(self) -> int {
        self.src().len() - self.cursor()
    }

    pub closed spec fn wf(self) -> bool {
        &&& self.pos <= self.chars@.len()
        &&& self.line_loc <= self.pos
        &&& self.line_loc == line_col(self.chars@, self.pos as int)
        &&& forall|i: int| 0 <= i < self.chars@.len() ==> (#[trigger] self.chars@[i]).0 + 4
            <= usize::MAX
        &&& forall|i: int, j: int|
            0 <= i < j < self.chars@.len() ==> (#[trigger] self.chars@[i]).0
                < (#[trigger] self.chars@[j]).0
    }

    /// A well-formed lexer's cursor lies within its input.
    pub broadcast proof fn lemma_wf_bounds(self)
        requires
            #[trigger] self.wf(),
        ensures
            0 <= self.cursor() <= self.src().len(),
    {
    }

    /// Builds a lexer over the input: one entry per character, carrying its
    /// byte offset; offsets start at zero and advance by each character's
    /// UTF-8 length.
    pub fn new(input: &str) -> (r: Lexer)
        ensures
            r.wf(),
            r.cursor() == 0,
            r.src() == input_src(input@),
            r.src().len() == input@.len(),
            forall|i: int| 0 <= i < input@.len() ==> (#[trigger] r.src()[i]).1 == input@[i],
            input@.len() > 0 ==> r.src()[0].0 == 0,
            forall|i: int|
                0 <= i && i + 1 < input@.len() ==> (#[trigger] r.src()[i + 1]).0 == r.src()[i].0
                    + char_utf8_len(r.src()[i].1),
            forall|i: int| 0 <= i < input@.len() ==> (#[trigger] r.src()[i]).0 + 4 <= usize::MAX,
    {
        let chars = char_indices_of(input);
        Lexer { chars, pos: 0, line_loc: 0 }
    }

    fn pop(&mut self) -> (r: Option<LocatedChar>)
        requires
            old(self).wf(),
        ensures
            final(self).wf(),
            final(self).src() == old(self).src(),
            old(self).remaining() == 0 ==> r is None && *final(self) == *old(self),
            old(self).remaining() > 0 ==> final(self).cursor() == old(self).cursor() + 1 && r
                == Some(
                LocatedChar(
                    old(self).src()[old(self).cursor()].0,
                    old(self).src()[old(self).cursor()].1,
                ),
            ),
    {
        if self.pos < self.chars.len() {
            let (loc, ch) = self.chars[self.pos];
            self.pos = self.pos + 1;
            if ch == '\n' {
                self.line_loc = 0;
            } else {
                self.line_loc = self.line_loc + 1;
            }
            Some(LocatedChar(loc, ch))
        } else {
            None
        }
    }

    fn pop_or_eof(&mut self) -> (r: Result<LocatedChar, LexicalError>)
        requires
            old(self).wf(),
        ensures
            final(self).wf(),
            final(self).src() == old(self).src(),
            old(self).remaining() == 0 ==> r == Err::<LocatedChar, LexicalError>(
                LexicalError::UnexpectedEOF,
            ) && *final(self) == *old(self),
            old(self).remaining() > 0 ==> final(self).cursor() == old(self).cursor() + 1 && r
                == Ok::<LocatedChar, LexicalError>(
                LocatedChar(
                    old(self).src()[old(self).cursor()].0,
                    old(self).src()[old(self).cursor()].1,
                ),
            ),
    {
        match self.pop() {
            Some(c) => Ok(c),
            None => Err(LexicalError::UnexpectedEOF),
        }
    }

    fn peek(&self) -> (r: Option<LocatedChar>)
        requires
            self.wf(),
        ensures
            self.remaining() == 0 ==> r is None,
            self.remaining() > 0 ==> r == Some(
                LocatedChar(self.src()[self.cursor()].0, self.src()[self.cursor()].1),
            ),
    {
        if self.pos < self.chars.len() {
            let (loc, ch) = self.chars[self.pos];
            Some(LocatedChar(loc, ch))
        } else {
            None
        }
    }

    /// Consumes through the next line break, or to the end of the input.
    fn consume_linecomment(&mut self)
        requires
            old(self).wf(),
        ensures
            final(self).wf(),
            final(self).src() == old(self).src(),
            final(self).cursor() >= old(self).cursor(),
            final(self).cursor() == comment_end(old(self).src(), old(self).cursor()),
    {
        loop
            invariant_except_break
                comment_end(self.src(), old(self).cursor()) == comment_end(
                    self.src(),
                    self.cursor(),
                ),
            invariant
                self.wf(),
                self.src() == old(self).src(),
                self.cursor() >= old(self).cursor(),
            ensures
                self.wf(),
                self.src() == old(self).src(),
                self.cursor() >= old(self).cursor(),
                self.cursor() == comment_end(self.src(), old(self).cursor()),
            decreases self.remaining(),
        {
            match self.pop() {
                Some(c) => {
                    if c.ch() == '\n' {
                        break;
                    }
                },
                None => {
                    break;
                },
            }
        }
    }

    /// Consumes the character after a backslash: exactly the four escapes
    /// backslash, double quote, `n` and `t` are recognized.
    fn consume_escaped_char(&mut self) -> (r: Result<char, LexicalError>)
        requires
            old(self).wf(),
        ensures
            final(self).wf(),
            final(self).src() == old(self).src(),
            final(self).cursor() >= old(self).cursor(),
            old(self).remaining() == 0 ==> r == Err::<char, LexicalError>(
                LexicalError::UnexpectedEOF,
            ),
            old(self).remaining() > 0 ==> final(self).cursor() == old(self).cursor() + 1 && r == (
            match old(self).src()[old(self).cursor()].1 {
                '\\' => Ok::<char, LexicalError>('\\'),
                '"' => Ok::<char, LexicalError>('"'),
                'n' => Ok::<char, LexicalError>('\n'),
                't' => Ok::<char, LexicalError>('\t'),
                _ => Err::<char, LexicalError>(LexicalError::IllegalStringEscape),
            }),
    {
        let ch = match self.pop_or_eof() {
            Ok(c) => c.ch(),
            Err(e) => {
                return Err(e);
            },
        };
        match ch {
            '\\' => Ok('\\'),
            '"' => Ok('"'),
            'n' => Ok('\n'),
            't' => Ok('\t'),
            _ => Err(LexicalError::IllegalStringEscape),
        }
    }

    /// Consumes the rest of a bareword whose first character has already
    /// been read: the token's content is exactly the run of source
    /// characters it spans.
    fn consume_unquoted_string(&mut self, first_char: LocatedChar) -> (r: SpannedTok)
        requires
            old(self).wf(),
            old(self).cursor() >= 1,
            first_char.0 == old(self).src()[old(self).cursor() - 1].0,
            first_char.1 == old(self).src()[old(self).cursor() - 1].1,
        ensures
            final(self).wf(),
            final(self).src() == old(self).src(),
            final(self).cursor() >= old(self).cursor(),
            ({
                let a = old(self).cursor() - 1;
                let b = final(self).cursor();
                &&& r.1 matches Ok(t) && t matches Tok::UString(u) && u@ == chars_of(
                    final(self).src(),
                    a,
                    b,
                )
                &&& r.0 == final(self).src()[a].0
                &&& r.2 == final(self).src()[b - 1].0 + 1
                &&& forall|k: int|
                    a < k < b ==> spec_is_bareword_char((#[trigger] final(self).src()[k]).1)
                &&& b == final(self).src().len() || !spec_is_bareword_char(
                    final(self).src()[b].1,
                )
            }),
    {
        let ghost a = old(self).cursor() - 1;
        let mut string_content: Vec<char> = Vec::new();
        let mut last_pos: usize = first_char.0;
        string_content.push(first_char.ch());
        proof {
            assert(string_content@ =~= chars_of(self.src(), a, self.cursor()));
        }
        loop
            invariant
                self.wf(),
                self.src() == old(self).src(),
                a == old(self).cursor() - 1,
                0 <= a < self.cursor() <= self.src().len(),
                string_content@ == chars_of(self.src(), a, self.cursor()),
                last_pos == self.src()[self.cursor() - 1].0,
                forall|k: int|
                    a < k < self.cursor() ==> spec_is_bareword_char(
                        (#[trigger] self.src()[k]).1,
                    ),
            ensures
                self.wf(),
                self.src() == old(self).src(),
                a == old(self).cursor() - 1,
                0 <= a < self.cursor() <= self.src().len(),
                string_content@ == chars_of(self.src(), a, self.cursor()),
                last_pos == self.src()[self.cursor() - 1].0,
                forall|k: int|
                    a < k < self.cursor() ==> spec_is_bareword_char(
                        (#[trigger] self.src()[k]).1,
                    ),
                self.cursor() == self.src().len() || !spec_is_bareword_char(
                    self.src()[self.cursor()].1,
                ),
            decreases self.remaining(),
        {
            let ch = self.peek();
            match ch {
                Some(c) => {
                    if is_bareword_char(c.ch()) {
                        self.pop();
                        last_pos = c.0;
                        string_content.push(c.ch());
                        proof {
                            assert(string_content@ =~= chars_of(self.src(), a, self.cursor()));
                        }
                    } else {
                        break;
                    }
                },
                None => {
                    break;
                },
            }
        }
        proof {
            Lexer::lemma_wf_bounds(*self);
        }
        (first_char.0, Ok(Tok::UString(chars_to_string(&string_content))), last_pos + 1)
    }

    /// Consumes a quoted string whose opening quote has already been read.
    /// A single-quoted string is raw: its content is exactly the source
    /// characters up to the first closing quote, with no escape processing.
    /// A double-quoted string processes escapes and is re-indented to the
    /// opening quote's column, each preceding character on its line
    /// counting as one column.
    fn consume_quoted_string(&mut self, starting_pos: Loc, is_double_quoted: bool) -> (r:
        SpannedTok)
        requires
            old(self).wf(),
        ensures
            final(self).wf(),
            final(self).src() == old(self).src(),
            final(self).cursor() >= old(self).cursor(),
            r.0 == starting_pos,
            r.1 is Ok ==> final(self).cursor() > old(self).cursor(),
            r.1 matches Ok(t) ==> t is QString,
            r.1 matches Err(e) ==> (e is UnexpectedEOF ==> final(self).remaining() == 0) && (
            e is IllegalStringEscape ==> is_double_quoted) && !(e is IllegalToken),
            !is_double_quoted ==> (r.1 matches Ok(t) ==> forall|k: int|
                old(self).cursor() <= k < final(self).cursor() - 1
                    ==> (#[trigger] final(self).src()[k]).1 != '\''),
            !is_double_quoted ==> (r.1 matches Err(e) ==> e == LexicalError::UnexpectedEOF
                && final(self).cursor() == final(self).src().len() && (forall|k: int|
                old(self).cursor() <= k < final(self).src().len()
                    ==> (#[trigger] final(self).src()[k]).1 != '\'')),
            is_double_quoted ==> (r.1 matches Err(e) ==> ({
                let a = old(self).cursor();
                &&& e == (if dq_fail_is_eof(final(self).src(), a) {
                    LexicalError::UnexpectedEOF
                } else {
                    LexicalError::IllegalStringEscape
                })
                &&& final(self).cursor() == (if dq_fail_is_eof(final(self).src(), a) {
                    final(self).src().len() as int
                } else {
                    if dq_fail_at(final(self).src(), a) + 2 <= final(self).src().len() {
                        dq_fail_at(final(self).src(), a) + 2
                    } else {
                        final(self).src().len() as int
                    }
                })
            })),
            is_double_quoted ==> (r.1 is Ok <==> dq_scan(final(self).src(), old(self).cursor())
                is Some),
            is_double_quoted ==> (r.1 is Ok ==> ({
                let b = final(self).cursor();
                &&& old(self).cursor() < b
                &&& final(self).src()[b - 1].1 == '"'
                &&& r.2 == final(self).src()[b - 1].0 + 1
            })),
            is_double_quoted ==> (r.1 matches Ok(t) ==> (t matches Tok::QString(u) ==> ({
                let a = old(self).cursor();
                let b = final(self).cursor();
                dq_scan(final(self).src(), a) matches Some(p) && p.1 == b - 1 && u@
                    == spec_dedent(p.0, line_col(final(self).src(), a))
            }))),
            !is_double_quoted ==> (r.1 matches Ok(t) ==> (t matches Tok::QString(u) ==> ({
                let a = old(self).cursor();
                let b = final(self).cursor();
                &&& a < b
                &&& u@ == chars_of(final(self).src(), a, b - 1)
                &&& final(self).src()[b - 1].1 == '\''
                &&& r.0 == starting_pos
                &&& r.2 == final(self).src()[b - 1].0 + 1
            }))),
    {
        let ghost a0 = self.cursor();
        let mut string_content: Vec<char> = Vec::new();
        let first_indent = self.line_loc;
        let mut loc: usize = starting_pos;
        proof {
            assert(string_content@ =~= chars_of(self.src(), old(self).cursor(), self.cursor()));
            match dq_scan(self.src(), a0) {
                Some(p) => {
                    assert(string_content@ + p.0 =~= p.0);
                },
                None => {},
            }
        }
        loop
            invariant
                self.wf(),
                self.src() == old(self).src(),
                a0 == old(self).cursor(),
                self.cursor() >= old(self).cursor(),
                first_indent == line_col(self.src(), a0),
                !is_double_quoted ==> string_content@ == chars_of(
                    self.src(),
                    old(self).cursor(),
                    self.cursor(),
                ),
                !is_double_quoted ==> forall|k: int|
                    a0 <= k < self.cursor() ==> (#[trigger] self.src()[k]).1 != '\'',
                is_double_quoted ==> match dq_scan(self.src(), self.cursor()) {
                    Some(p) => dq_scan(self.src(), a0) == Some(
                        (string_content@ + p.0, p.1),
                    ),
                    None => dq_scan(self.src(), a0) is None,
                },
                is_double_quoted ==> dq_fail_is_eof(self.src(), a0) == dq_fail_is_eof(
                    self.src(),
                    self.cursor(),
                ),
                is_double_quoted ==> (dq_scan(self.src(), a0) is None ==> dq_fail_at(
                    self.src(),
                    a0,
                ) == dq_fail_at(self.src(), self.cursor())),
            decreases self.remaining(),
        {
            loc = if loc < usize::MAX {
                loc + 1
            } else {
                loc
            };
            let ch = match self.pop_or_eof() {
                Ok(c) => c,
                Err(_) => {
                    return (starting_pos, Err(LexicalError::UnexpectedEOF), loc);
                },
            };
            if ch.ch() == '\'' && !is_double_quoted {
                let end = if ch.0 < usize::MAX {
                    ch.0 + 1
                } else {
                    ch.0
                };
                return (starting_pos, Ok(Tok::QString(chars_to_string(&string_content))), end);
            } else if ch.ch() == '"' && is_double_quoted {
                proof {
                    assert(dq_scan(self.src(), self.cursor() - 1) == Some(
                        (Seq::<char>::empty(), self.cursor() - 1),
                    ));
                    assert(string_content@ + Seq::<char>::empty() =~= string_content@);
                }
                let trimmed = dedent_content(&string_content, first_indent);
                let end = if ch.0 < usize::MAX {
                    ch.0 + 1
                } else {
                    ch.0
                };
                return (starting_pos, Ok(Tok::QString(chars_to_string(&trimmed))), end);
            } else if ch.ch() == '\\' && is_double_quoted {
                let ghost bs = self.cursor() - 1;
                match self.consume_escaped_char() {
                    Ok(c) => {
                        string_content.push(c);
                        proof {
                            match dq_scan(self.src(), self.cursor()) {
                                Some(p) => {
                                    assert(string_content@ + p.0 =~= string_content@.drop_last()
                                        + (seq![c] + p.0));
                                },
                                None => {},
                            }
                        }
                    },
                    Err(_) => {
                        return (starting_pos, Err(LexicalError::IllegalStringEscape), loc);
                    },
                }
            } else {
                string_content.push(ch.ch());
                proof {
                    if !is_double_quoted {
                        assert(string_content@ =~= chars_of(
                            self.src(),
                            old(self).cursor(),
                            self.cursor(),
                        ));
                    }
                    if is_double_quoted {
                        match dq_scan(self.src(), self.cursor()) {
                            Some(p) => {
                                assert(string_content@ + p.0 =~= string_content@.drop_last() + (
                                seq![ch.1] + p.0));
                            },
                            None => {},
                        }
                    }
                }
            }
        }
    }

    /// Produces the next token, skipping whitespace and `//` line comments.
    /// `None` means the input is exhausted. A bareword token's content is
    /// exactly the run of source characters its span covers, and each
    /// punctuation token spans exactly its own character: the spans of these
    /// tokens reconstruct their source text.
    pub fn next(&mut self) -> (r: Option<SpannedTok>)
        requires
            old(self).wf(),
        ensures
            final(self).wf(),
            final(self).src() == old(self).src(),
            final(self).cursor() >= old(self).cursor(),
            r is Some ==> final(self).cursor() > old(self).cursor(),
            r is None ==> final(self).cursor() == final(self).src().len(),
            ({
                let (sl, np) = spec_next(old(self).src(), old(self).cursor());
                &&& final(self).cursor() == np
                &&& match sl {
                    SpecLex::End => r is None,
                    SpecLex::Tok(start, stk, end) => r matches Some(st) && (st.0 == start
                        && st.2 == end && (st.1 matches Ok(t) && tok_matches(t, stk))),
                    SpecLex::Error(start, kind, end) => r matches Some(st) && st.0 == start
                        && st.1 == Err::<Tok, LexicalError>(kind) && (match end {
                        Some(e) => st.2 == e,
                        None => true,
                    }),
                }
            }),
            r matches Some(st) ==> (st.1 matches Ok(t) ==> (t matches Tok::UString(u)
                ==> exists|a: int, b: int|
                old(self).cursor() <= a < b <= final(self).cursor() && u@ == #[trigger] chars_of(
                    final(self).src(),
                    a,
                    b,
                ) && st.0 == final(self).src()[a].0 && st.2 == final(self).src()[b - 1].0 + 1
                    && spec_is_bareword_start(final(self).src()[a].1) && (forall|k: int|
                    a < k < b ==> spec_is_bareword_char((#[trigger] final(self).src()[k]).1)) && (
                b == final(self).src().len() || !spec_is_bareword_char(final(self).src()[b].1)))),
            r matches Some(st) ==> (st.1 matches Ok(t) ==> (t matches Tok::QString(u)
                ==> exists|a: int, c: int|
                old(self).cursor() <= a < c < final(self).cursor() && st.0 == (
                #[trigger] final(self).src()[a]).0 && (final(self).src()[a].1 == '"'
                    || final(self).src()[a].1 == '\'') && ((#[trigger] final(self).src()[c]).1
                    == final(self).src()[a].1 && st.2 == final(self).src()[c].0 + 1) && ((
                final(self).src()[a]).1 == '\'' ==> u@ == chars_of(final(self).src(), a + 1, c))
                    && (final(self).src()[a].1 == '"' ==> (dq_scan(final(self).src(), a + 1)
                    matches Some(p) && (p.1 == c && u@ == spec_dedent(
                    p.0,
                    line_col(final(self).src(), a + 1),
                )))))),
            r matches Some(st) ==> (st.1 matches Err(_e) ==> exists|a: int|
                old(self).cursor() <= a < final(self).cursor() && st.0 == (
                #[trigger] final(self).src()[a]).0),
            r matches Some(st) ==> (st.1 matches Ok(t) ==> (t matches Tok::Semicolon
                ==> punct_token_law(old(self).cursor(), *final(self), st.0, st.2, ';'))),
            r matches Some(st) ==> (st.1 matches Ok(t) ==> (t matches Tok::Plus
                ==> punct_token_law(old(self).cursor(), *final(self), st.0, st.2, '+'))),
            r matches Some(st) ==> (st.1 matches Ok(t) ==> (t matches Tok::LBrace
                ==> punct_token_law(old(self).cursor(), *final(self), st.0, st.2, '{'))),
            r matches Some(st) ==> (st.1 matches Ok(t) ==> (t matches Tok::RBrace
                ==> punct_token_law(old(self).cursor(), *final(self), st.0, st.2, '}'))),
    {
        loop
            invariant
                self.wf(),
                self.src() == old(self).src(),
                self.cursor() >= old(self).cursor(),
                spec_next(self.src(), old(self).cursor()) == spec_next(
                    self.src(),
                    self.cursor(),
                ),
            decreases self.remaining(),
        {
            let ghost it = self.cursor();
            let next_char = match self.pop() {
                Some(c) => c,
                None => {
                    return None;
                },
            };
            let c = next_char.ch();
            if is_bareword_start(c) {
                let tok = self.consume_unquoted_string(next_char);
                proof {
                    lemma_bareword_end_from_facts(self.src(), it + 1, self.cursor());
                }
                return Some(tok);
            } else if is_whitespace(c) {
                continue ;
            } else if c == '/' {
                let loc = next_char.loc();
                let second = self.pop();
                let is_comment = match second {
                    Some(c2) => c2.ch() == '/',
                    None => false,
                };
                if !is_comment {
                    return Some((loc, Err(LexicalError::IllegalToken), loc + 2));
                }
                self.consume_linecomment();
            } else if c == '"' {
                let ghost qa = self.cursor() - 1;
                let tok = self.consume_quoted_string(next_char.loc(), true);
                proof {
                    if tok.1 is Ok {
                        assert(0 <= qa && qa + 1 < self.cursor() && self.cursor()
                            <= self.src().len());
                        assert(self.src()[qa].1 == '"' && tok.0 == self.src()[qa].0);
                        // the character after the opening quote witnesses the
                        // span's interior
                        let interior = self.src()[qa + 1];
                        assert(self.src()[qa + 1] == interior);
                    }
                }
                return Some(tok);
            } else if c == '\'' {
                let tok = self.consume_quoted_string(next_char.loc(), false);
                proof {
                    if tok.1 is Ok {
                        lemma_sq_find_from_facts(self.src(), it + 1, self.cursor() - 1);
                    } else {
                        lemma_sq_find_from_facts(
                            self.src(),
                            it + 1,
                            self.src().len() as int,
                        );
                    }
                }
                return Some(tok);
            } else if c == ';' {
                return Some((next_char.loc(), Ok(Tok::Semicolon), next_char.loc() + 1));
            } else if c == '+' {
                return Some((next_char.loc(), Ok(Tok::Plus), next_char.loc() + 1));
            } else if c == '{' {
                return Some((next_char.loc(), Ok(Tok::LBrace), next_char.loc() + 1));
            } else if c == '}' {
                return Some((next_char.loc(), Ok(Tok::RBrace), next_char.loc() + 1));
            } else {
                return Some((next_char.0, Err(LexicalError::IllegalToken), next_char.0 + 1));
            }
        }
    }
}

/// Builds a String from a sequence of characters.
fn chars_to_string(chars: &Vec<char>) -> (r: String)
    ensures
        r@ == chars@,
{
    let mut s = String::new();
    let mut i: usize = 0;
    while i < chars.len()
        invariant
            0 <= i <= chars@.len(),
            s@ == chars@.take(i as int),
        decreases chars@.len() - i,
    {
        s = push_char(s, chars[i]);
        proof {
            assert(s@ =~= chars@.take(i + 1));
        }
        i = i + 1;
    }
    proof {
        assert(chars@.take(chars@.len() as int) =~= chars@);
    }
    s
}

/// Relies on String::push: appends one character to the string.
#[verifier::external_body]
fn push_char(s: String, c: char) -> (r: String)
    ensures
        r@ == s@.push(c),
{
    let mut s = s;
    s.push(c);
    s
}

/// Index of the first line break in `s`, or its length when none occurs.
pub open spec fn first_nl(s: Seq<char>) -> int
    decreases s.len(),
{
    if s.len() == 0 {
        0
    } else if s[0] == '\n' {
        0
    } else {
        1 + first_nl(s.drop_first())
    }
}

proof fn lemma_first_nl_no_nl(s: Seq<char>)
    requires
        forall|k: int| 0 <= k < s.len() ==> s[k] != '\n',
    ensures
        first_nl(s) == s.len(),
    decreases s.len(),
{
    if s.len() > 0 {
        lemma_first_nl_no_nl(s.drop_first());
    }
}

proof fn lemma_first_nl_concat(l: Seq<char>, r: Seq<char>)
    requires
        forall|k: int| 0 <= k < l.len() ==> l[k] != '\n',
    ensures
        first_nl(l + seq!['\n'] + r) == l.len(),
    decreases l.len(),
{
    if l.len() == 0 {
        assert((l + seq!['\n'] + r)[0] == '\n');
    } else {
        assert((l + seq!['\n'] + r).drop_first() =~= l.drop_first() + seq!['\n'] + r);
        lemma_first_nl_concat(l.drop_first(), r);
    }
}

/// A line with its trailing whitespace removed.
pub open spec fn trim_trailing(line: Seq<char>) -> Seq<char>
    decreases line.len(),
{
    if line.len() > 0 && crate::text::unicode_whitespace(line.last()) {
        trim_trailing(line.drop_last())
    } else {
        line
    }
}

/// A line with leading tabs and spaces removed while fewer than `budget`
/// columns have been consumed; a tab counts eight columns, a space one.
pub open spec fn drop_leading(line: Seq<char>, budget: int, col: int) -> Seq<char>
    decreases line.len(),
{
    if line.len() == 0 {
        line
    } else if col >= budget {
        line
    } else if line[0] == '\t' {
        drop_leading(line.drop_first(), budget, col + 8)
    } else if line[0] == ' ' {
        drop_leading(line.drop_first(), budget, col + 1)
    } else {
        line
    }
}

/// One line of a double-quoted literal after re-indentation.
pub open spec fn dedent_line(line: Seq<char>, budget: int) -> Seq<char> {
    drop_leading(trim_trailing(line), budget, 0)
}

/// The whole content of a double-quoted literal after re-indentation: each
/// line trimmed and de-indented, re-joined with line breaks.
pub open spec fn spec_dedent(content: Seq<char>, budget: int) -> Seq<char>
    decreases content.len(),
{
    let nl = first_nl(content);
    if nl < 0 || nl >= content.len() {
        dedent_line(content, budget)
    } else {
        dedent_line(content.take(nl), budget) + seq!['\n'] + spec_dedent(
            content.skip(nl + 1),
            budget,
        )
    }
}

/// Removes trailing whitespace, then removes leading whitespace up to
/// `first_indent` columns (a tab counts as 8 columns, a space as 1) from each
/// line of `content`, re-joining the lines with `\n`. This re-indents
/// multi-line double-quoted literals to the column of the opening quote.
fn dedent_content(content: &Vec<char>, first_indent: usize) -> (r: Vec<char>)
    ensures
        r@ == spec_dedent(content@, first_indent as int),
{
    let ghost b = first_indent as int;
    let mut out: Vec<char> = Vec::new();
    let mut line: Vec<char> = Vec::new();
    let mut first_line = true;
    let mut i: usize = 0;
    proof {
        assert(line@ + content@.skip(0) =~= content@);
    }
    while i < content.len()
        invariant
            0 <= i <= content@.len(),
            b == first_indent as int,
            forall|k: int| 0 <= k < line@.len() ==> line@[k] != '\n',
            spec_dedent(content@, b) == out@ + (if first_line {
                Seq::<char>::empty()
            } else {
                seq!['\n']
            }) + spec_dedent(line@ + content@.skip(i as int), b),
        decreases content@.len() - i,
    {
        let ghost line0 = line@;
        let ghost rest0 = content@.skip(i as int);
        let c = content[i];
        proof {
            assert(rest0[0] == content@[i as int]);
            assert(rest0.drop_first() =~= content@.skip(i + 1));
        }
        if c == '\n' {
            proof {
                lemma_first_nl_concat(line0, content@.skip(i + 1));
                assert(line0 + rest0 =~= line0 + seq!['\n'] + content@.skip(i + 1));
                assert((line0 + seq!['\n'] + content@.skip(i + 1)).take(line0.len() as int)
                    =~= line0);
                assert((line0 + seq!['\n'] + content@.skip(i + 1)).skip(line0.len() as int + 1)
                    =~= content@.skip(i + 1));
            }
            append_dedented_line(&mut out, &line, first_indent, first_line);
            line = Vec::new();
            first_line = false;
            proof {
                assert(line@ + content@.skip(i + 1) =~= content@.skip(i + 1));
                assert(spec_dedent(content@, b) =~= out@ + seq!['\n'] + spec_dedent(
                    line@ + content@.skip(i + 1),
                    b,
                ));
            }
        } else {
            line.push(c);
            proof {
                assert(line@ + content@.skip(i + 1) =~= line0 + rest0);
            }
        }
        i = i + 1;
    }
    proof {
        assert(content@.skip(content@.len() as int) =~= Seq::<char>::empty());
        assert(line@ + content@.skip(content@.len() as int) =~= line@);
        lemma_first_nl_no_nl(line@);
    }
    append_dedented_line(&mut out, &line, first_indent, first_line);
    proof {
        assert(out@ =~= spec_dedent(content@, first_indent as int));
    }
    out
}

/// Processes one line for `dedent_content`: trims trailing whitespace, drops
/// leading whitespace up to `first_indent` columns, and appends the result to
/// `out`, preceded by `\n` unless it is the first line.
fn append_dedented_line(out: &mut Vec<char>, line: &Vec<char>, first_indent: usize, first_line:
    bool)
    ensures
        final(out)@ == old(out)@ + (if first_line {
            Seq::<char>::empty()
        } else {
            seq!['\n']
        }) + dedent_line(line@, first_indent as int),
{
    let ghost base = out@;
    if !first_line {
        out.push('\n');
    }
    // trailing whitespace
    let mut end: usize = line.len();
    proof {
        assert(line@.take(line@.len() as int) =~= line@);
    }
    while end > 0
        invariant
            0 <= end <= line@.len(),
            trim_trailing(line@) == trim_trailing(line@.take(end as int)),
        ensures
            0 <= end <= line@.len(),
            line@.take(end as int) == trim_trailing(line@),
        decreases end,
    {
        if is_whitespace(line[end - 1]) {
            proof {
                assert(line@.take(end as int).drop_last() =~= line@.take(end - 1));
            }
            end = end - 1;
        } else {
            break;
        }
    }
    let ghost trimmed = line@.take(end as int);
    // leading whitespace up to first_indent columns
    let mut start: usize = 0;
    let mut col: u128 = 0;
    proof {
        assert(trimmed.skip(0) =~= trimmed);
    }
    while start < end
        invariant
            0 <= start <= end <= line@.len(),
            trimmed == line@.take(end as int),
            col <= first_indent as u128 + 8,
            drop_leading(trimmed, first_indent as int, 0) == drop_leading(
                trimmed.skip(start as int),
                first_indent as int,
                col as int,
            ),
        ensures
            0 <= start <= end <= line@.len(),
            trimmed == line@.take(end as int),
            trimmed.skip(start as int) == drop_leading(trimmed, first_indent as int, 0),
        decreases end - start,
    {
        if col >= first_indent as u128 {
            break;
        }
        let c = line[start];
        proof {
            assert(trimmed.skip(start as int)[0] == line@[start as int]);
            assert(trimmed.skip(start as int).drop_first() =~= trimmed.skip(start + 1));
        }
        if c == '\t' {
            col = col + 8;
            start = start + 1;
        } else if c == ' ' {
            col = col + 1;
            start = start + 1;
        } else {
            break;
        }
    }
    proof {
        if start >= end {
            assert(trimmed.skip(start as int) =~= Seq::<char>::empty());
        }
    }
    let mut k: usize = start;
    while k < end
        invariant
            start <= k <= end <= line@.len(),
            trimmed == line@.take(end as int),
            out@ == base + (if first_line {
                Seq::<char>::empty()
            } else {
                seq!['\n']
            }) + trimmed.subrange(start as int, k as int),
        decreases end - k,
    {
        proof {
            assert(trimmed.subrange(start as int, k + 1) =~= trimmed.subrange(
                start as int,
                k as int,
            ).push(line@[k as int]));
        }
        out.push(line[k]);
        k = k + 1;
    }
    proof {
        assert(trimmed.subrange(start as int, end as int) =~= trimmed.skip(start as int));
        assert(out@ =~= base + (if first_line {
            Seq::<char>::empty()
        } else {
            seq!['\n']
        }) + dedent_line(line@, first_indent as int));
    }
}

} // verus!
