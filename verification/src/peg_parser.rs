use vstd::prelude::*;
use vstd::string::StrSliceExecFns;

use crate::parser::RuleName;

verus! {

//--------------------------------------------------
// UTF-8 widths and byte positions

/// The number of bytes that the UTF-8 encoding of `c` takes.
pub open spec fn spec_char_width(c: char) -> nat {
    if (c as u32) < 0x80 {
        1
    } else if (c as u32) < 0x800 {
        2
    } else if (c as u32) < 0x10000 {
        3
    } else {
        4
    }
}

/// The number of bytes that the UTF-8 encoding of `s` takes.
pub open spec fn utf8_len(s: Seq<char>) -> nat
    decreases s.len(),
{
    if s.len() == 0 {
        0
    } else {
        utf8_len(s.drop_last()) + spec_char_width(s.last())
    }
}

/// The UTF-8 width of a character, as `char::len_utf8` computes it.
pub fn char_width(c: char) -> (res: usize)
    ensures
        res == spec_char_width(c),
        1 <= res <= 4,
{
    let v = c as u32;
    if v < 0x80 {
        1
    } else if v < 0x800 {
        2
    } else if v < 0x10000 {
        3
    } else {
        4
    }
}

pub proof fn lemma_utf8_len_step(s: Seq<char>, i: int)
    requires
        0 <= i < s.len(),
    ensures
        utf8_len(s.take(i + 1)) == utf8_len(s.take(i)) + spec_char_width(s[i]),
{
    assert(s.take(i + 1).drop_last() =~= s.take(i));
}

pub proof fn lemma_utf8_len_take_le(s: Seq<char>, i: int, j: int)
    requires
        0 <= i <= j <= s.len(),
    ensures
        utf8_len(s.take(i)) <= utf8_len(s.take(j)),
    decreases j - i,
{
    if i < j {
        lemma_utf8_len_step(s, j - 1);
        lemma_utf8_len_take_le(s, i, j - 1);
    }
}

pub proof fn lemma_utf8_len_strict(s: Seq<char>, i: int, j: int)
    requires
        0 <= i < j <= s.len(),
    ensures
        utf8_len(s.take(i)) < utf8_len(s.take(j)),
{
    lemma_utf8_len_step(s, j - 1);
    lemma_utf8_len_take_le(s, i, j - 1);
}

//--------------------------------------------------
// Parse results

/// The range of byte positions of a parsed construct.
#[derive(Copy, Clone, Debug, PartialOrd, Ord, PartialEq, Eq)]
pub struct ParsedRange {
    /// The position of the first character
    pub start: usize,
    /// The position *after* the last character
    pub end: usize,
}

/// A parsed value, with the range of source text that it came from.
#[derive(Debug)]
pub struct Parsed<R> {
    pub range: ParsedRange,
    pub value: R,
}

impl<R> Parsed<R> {
    /// Replaces the value of the Parsed.  Typically used when a Parsed is generated from a
    /// primitive ("true"), but is then converted to its final value (boolean true)
    pub fn with_value<R2>(&self, value: R2) -> (res: Parsed<R2>)
        ensures
            res.range == self.range,
            res.value == value,
    {
        Parsed { range: self.range, value }
    }

    /// Convert the value of the Parsed, keeping its range.
    pub fn map_value<R2, F: FnOnce(&R) -> R2>(&self, f: F) -> (res: Parsed<R2>)
        requires
            f.requires((&self.value,)),
        ensures
            res.range == self.range,
            f.ensures((&self.value,), res.value),
    {
        let value = f(&self.value);
        Parsed { range: self.range, value }
    }
}

#[derive(Debug)]
pub enum ParseError {
    RuleNameUsedMultipleTimes(RuleName),
    ParseFailed,
}

//--------------------------------------------------
// Character classes

/// Represents a set of characters and character ranges to be matched (or not matched if
/// negated is true)
pub struct CharClass<'a> {
    pub negated: bool,
    pub singles: &'a [char],
    pub ranges: &'a [(char, char)],
}

impl<'a> CharClass<'a> {
    /// Whether `ch` is one of the singles or lies in one of the (inclusive) ranges.
    pub open spec fn spec_matches_non_negated(&self, ch: char) -> bool {
        ||| exists|i: int| 0 <= i < self.singles@.len() && #[trigger] self.singles@[i] == ch
        ||| exists|i: int|
            0 <= i < self.ranges@.len() && (#[trigger] self.ranges@[i]).0 <= ch && ch
                <= self.ranges@[i].1
    }

    pub open spec fn spec_matches(&self, ch: char) -> bool {
        if self.negated {
            !self.spec_matches_non_negated(ch)
        } else {
            self.spec_matches_non_negated(ch)
        }
    }

    /// The empty class: matches nothing.
    pub fn new() -> (res: Self)
        ensures
            !res.negated,
            res.singles@.len() == 0,
            res.ranges@.len() == 0,
    {
        let singles: &'a [char] = &[];
        let ranges: &'a [(char, char)] = &[];
        Self { negated: false, singles, ranges }
    }

    /// The same singles and ranges, negated.
    pub fn except(&self) -> (res: Self)
        ensures
            res.negated,
            res.singles@ == self.singles@,
            res.ranges@ == self.ranges@,
    {
        Self { negated: true, singles: self.singles, ranges: self.ranges }
    }

    /// The same class with its singles replaced.
    pub fn chars(&self, singles: &'a [char]) -> (res: Self)
        ensures
            res.negated == self.negated,
            res.singles@ == singles@,
            res.ranges@ == self.ranges@,
    {
        Self { negated: self.negated, singles, ranges: self.ranges }
    }

    /// The same class with its ranges replaced.
    pub fn ranges(&self, ranges: &'a [(char, char)]) -> (res: Self)
        ensures
            res.negated == self.negated,
            res.singles@ == self.singles@,
            res.ranges@ == ranges@,
    {
        Self { negated: self.negated, singles: self.singles, ranges }
    }

    pub fn matches(&self, ch: char) -> (res: bool)
        ensures
            res == self.spec_matches(ch),
    {
        if self.negated {
            !self.matches_non_negated(ch)
        } else {
            self.matches_non_negated(ch)
        }
    }

    fn matches_non_negated(&self, ch: char) -> (res: bool)
        ensures
            res == self.spec_matches_non_negated(ch),
    {
        let mut i: usize = 0;
        while i < self.singles.len()
            invariant
                i <= self.singles@.len(),
                forall|k: int| 0 <= k < i ==> self.singles@[k] != ch,
            decreases self.singles@.len() - i,
        {
            if self.singles[i] == ch {
                return true;
            }
            i = i + 1;
        }
        let mut j: usize = 0;
        while j < self.ranges.len()
            invariant
                j <= self.ranges@.len(),
                forall|k: int| 0 <= k < self.singles@.len() ==> self.singles@[k] != ch,
                forall|k: int|
                    0 <= k < j ==> !(self.ranges@[k].0 <= ch && ch <= self.ranges@[k].1),
            decreases self.ranges@.len() - j,
        {
            let (start, end) = self.ranges[j];
            if ch >= start && ch <= end {
                return true;
            }
            j = j + 1;
        }
        false
    }
}

//--------------------------------------------------
// The parser state

/// A saved parser position, to return to when a parse fails.
#[derive(Copy, Clone)]
pub struct ParseMark {
    idx: usize,
    pos: usize,
}

impl ParseMark {
    /// The character index of the mark.
    pub closed spec fn index(self) -> nat {
        self.idx as nat
    }

    /// The byte position of the mark.
    pub closed spec fn position(self) -> nat {
        self.pos as nat
    }

    /// The byte position of the mark, as a `usize`.
    pub fn pos(&self) -> (res: usize)
        ensures
            res == self.position(),
    {
        self.pos
    }
}

/// A cursor over a source text.  Positions handed out in `ParsedRange`s are byte offsets
/// into the UTF-8 encoding of the source.
pub struct PegParserImpl {
    chars: Vec<char>,
    // The character index of the next character to be read
    idx: usize,
    // The byte position of the next character to be read
    pos: usize,
}

impl PegParserImpl {
    /// The source text, as characters.
    pub closed spec fn source(&self) -> Seq<char> {
        self.chars@
    }

    /// The number of characters read so far.
    pub closed spec fn index(&self) -> nat {
        self.idx as nat
    }

    /// The byte position of the next character to be read.
    pub open spec fn position(&self) -> nat {
        utf8_len(self.source().take(self.index() as int))
    }

    /// The number of characters left to read.
    pub open spec fn remaining(&self) -> nat {
        (self.source().len() - self.index()) as nat
    }

    pub closed spec fn inner_wf(&self) -> bool {
        self.pos == utf8_len(self.chars@.take(self.idx as int))
    }

    pub open spec fn wf(&self) -> bool {
        &&& self.index() <= self.source().len()
        &&& utf8_len(self.source()) <= usize::MAX
        &&& self.inner_wf()
    }

    /// A mark is valid for this parser when it names a character boundary of its source.
    pub open spec fn mark_valid(&self, m: ParseMark) -> bool {
        &&& m.index() <= self.source().len()
        &&& m.position() == utf8_len(self.source().take(m.index() as int))
    }

    /// The character at the cursor, if any.
    pub open spec fn spec_peek(&self) -> Option<char> {
        if self.index() < self.source().len() {
            Some(self.source()[self.index() as int])
        } else {
            None
        }
    }

    /// Whether the text at the cursor starts with `s`.
    pub open spec fn spec_at_str(&self, s: Seq<char>) -> bool {
        &&& self.index() + s.len() <= self.source().len()
        &&& self.source().subrange(self.index() as int, (self.index() + s.len()) as int) == s
    }

    pub fn new(source: &str) -> (res: Self)
        requires
            utf8_len(source@) <= usize::MAX,
        ensures
            res.wf(),
            res.source() == source@,
            res.index() == 0,
    {
        let n = source.unicode_len();
        let mut chars: Vec<char> = Vec::new();
        let mut i: usize = 0;
        while i < n
            invariant
                n == source@.len(),
                i <= n,
                chars@ == source@.take(i as int),
            decreases n - i,
        {
            chars.push(source.get_char(i));
            i = i + 1;
            assert(chars@ =~= source@.take(i as int));
        }
        assert(chars@ =~= source@);
        assert(chars@.take(0) =~= Seq::<char>::empty());
        Self { chars, idx: 0, pos: 0 }
    }

    /// The position of the cursor, as a mark to return to.
    pub fn mark(&self) -> (res: ParseMark)
        requires
            self.wf(),
        ensures
            res.index() == self.index(),
            res.position() == self.position(),
            self.mark_valid(res),
    {
        ParseMark { idx: self.idx, pos: self.pos }
    }

    /// Moves the cursor back (or forward) to a mark.
    pub fn reset(&mut self, m: ParseMark)
        requires
            old(self).wf(),
            old(self).mark_valid(m),
        ensures
            final(self).wf(),
            final(self).source() == old(self).source(),
            final(self).index() == m.index(),
    {
        self.idx = m.idx;
        self.pos = m.pos;
    }

    /// The current byte position.
    pub fn pos(&self) -> (res: usize)
        requires
            self.wf(),
        ensures
            res == self.position(),
    {
        self.pos
    }

    /// Wraps a value with the range from a mark to the cursor.
    pub fn parsed_from<R>(&self, m: &ParseMark, value: R) -> (res: Parsed<R>)
        requires
            self.wf(),
        ensures
            res.range.start == m.position(),
            res.range.end == self.position(),
            res.value == value,
    {
        Parsed { range: ParsedRange { start: m.pos, end: self.pos }, value }
    }

    /// Proves that the byte position grows with the character index.
    pub proof fn lemma_position_mono(&self, other: &Self)
        requires
            self.wf(),
            other.wf(),
            self.source() == other.source(),
            self.index() <= other.index(),
        ensures
            self.position() <= other.position(),
            self.index() < other.index() ==> self.position() < other.position(),
    {
        lemma_utf8_len_take_le(self.source(), self.index() as int, other.index() as int);
        if self.index() < other.index() {
            lemma_utf8_len_strict(self.source(), self.index() as int, other.index() as int);
        }
    }

    /// Return the character at the current position, None if EOF
    pub fn peek(&self) -> (res: Option<char>)
        requires
            self.wf(),
        ensures
            res == self.spec_peek(),
    {
        if self.idx < self.chars.len() {
            Some(self.chars[self.idx])
        } else {
            None
        }
    }

    /// Return the character at the current position and advance the position, None if EOF
    pub fn next_char(&mut self) -> (res: Option<char>)
        requires
            old(self).wf(),
        ensures
            final(self).wf(),
            final(self).source() == old(self).source(),
            res == old(self).spec_peek(),
            res is Some ==> final(self).index() == old(self).index() + 1,
            res is None ==> final(self).index() == old(self).index(),
    {
        if self.idx < self.chars.len() {
            let c = self.chars[self.idx];
            proof {
                lemma_utf8_len_step(self.chars@, self.idx as int);
                lemma_utf8_len_take_le(self.chars@, self.idx + 1, self.chars@.len() as int);
                assert(self.chars@.take(self.chars@.len() as int) =~= self.chars@);
            }
            self.pos = self.pos + char_width(c);
            self.idx = self.idx + 1;
            Some(c)
        } else {
            None
        }
    }

    /// Matches one character of the class.
    pub fn char_class(&mut self, char_class: &CharClass) -> (res: Option<Parsed<char>>)
        requires
            old(self).wf(),
        ensures
            rule_ok(*old(self), *final(self), res),
            final(self).wf(),
            final(self).source() == old(self).source(),
            match old(self).spec_peek() {
                Some(c) if char_class.spec_matches(c) => {
                    &&& res matches Some(r) && r.value == c && r.range.start == old(self).position()
                        && r.range.end == final(self).position()
                    &&& final(self).index() == old(self).index() + 1
                },
                _ => res is None && final(self).index() == old(self).index(),
            },
    {
        let m = self.mark();
        let ghost before = *self;
        match self.next_char() {
            Some(ch) => {
                proof {
                    before.lemma_position_mono(self);
                }
                if char_class.matches(ch) {
                    Some(self.parsed_from(&m, ch))
                } else {
                    self.reset(m);
                    None
                }
            },
            None => None,
        }
    }

    /// Matches the given character.
    pub fn ch(&mut self, match_ch: char) -> (res: Option<Parsed<char>>)
        requires
            old(self).wf(),
        ensures
            rule_ok(*old(self), *final(self), res),
            final(self).wf(),
            final(self).source() == old(self).source(),
            if old(self).spec_peek() == Some(match_ch) {
                &&& res matches Some(r) && r.value == match_ch && r.range.start == old(
                    self,
                ).position() && r.range.end == final(self).position()
                &&& final(self).index() == old(self).index() + 1
            } else {
                res is None && final(self).index() == old(self).index()
            },
    {
        let m = self.mark();
        let ghost before = *self;
        match self.next_char() {
            Some(ch) => {
                proof {
                    before.lemma_position_mono(self);
                }
                if ch == match_ch {
                    Some(self.parsed_from(&m, ch))
                } else {
                    self.reset(m);
                    None
                }
            },
            None => None,
        }
    }

    /// Matches the given string.
    pub fn str(&mut self, match_str: &'static str) -> (res: Option<Parsed<&'static str>>)
        requires
            old(self).wf(),
        ensures
            rule_ok(*old(self), *final(self), res),
            final(self).wf(),
            final(self).source() == old(self).source(),
            if old(self).spec_at_str(match_str@) {
                &&& res is Some
                &&& res->0.range.start == old(self).position()
                &&& res->0.range.end == final(self).position()
                &&& res->0.value == match_str
                &&& final(self).index() == old(self).index() + match_str@.len()
            } else {
                res is None && final(self).index() == old(self).index()
            },
    {
        let m = self.mark();
        let n = match_str.unicode_len();
        let mut i: usize = 0;
        while i < n
            invariant
                self.wf(),
                self.source() == old(self).source(),
                n == match_str@.len(),
                i <= n,
                old(self).mark_valid(m),
                m.index() == old(self).index(),
                m.position() == old(self).position(),
                self.index() == old(self).index() + i,
                self.source().subrange(old(self).index() as int, self.index() as int)
                    == match_str@.take(i as int),
            decreases n - i,
        {
            let mc = match_str.get_char(i);
            let ghost before = self.index();
            match self.next_char() {
                Some(c) => {
                    if c != mc {
                        proof {
                            let s = self.source().subrange(
                                old(self).index() as int,
                                (old(self).index() + n) as int,
                            );
                            if old(self).spec_at_str(match_str@) {
                                assert(s[i as int] == c);
                            }
                        }
                        self.reset(m);
                        return None;
                    }
                },
                None => {
                    self.reset(m);
                    return None;
                },
            }
            i = i + 1;
            assert(self.source().subrange(old(self).index() as int, self.index() as int)
                =~= match_str@.take(i as int));
        }
        assert(match_str@.take(n as int) =~= match_str@);
        proof {
            old(self).lemma_position_mono(self);
        }
        Some(self.parsed_from(&m, match_str))
    }

    /// Matches the end of the input.
    pub fn eof(&mut self) -> (res: Option<Parsed<()>>)
        requires
            old(self).wf(),
        ensures
            *final(self) == *old(self),
            rule_ok(*old(self), *final(self), res),
            res is Some <==> old(self).spec_peek() is None,
            res is Some ==> res->0.range.start == old(self).position() && res->0.range.end
                == old(self).position(),
    {
        let m = self.mark();
        if self.peek().is_some() {
            None
        } else {
            Some(self.parsed_from(&m, ()))
        }
    }
}

//--------------------------------------------------
// The contract shared by the grammar rules

/// What every grammar rule keeps: the source is untouched, the cursor only moves forward,
/// and a result covers text between the old and the new cursor.
pub open spec fn body_ok<R>(
    old_p: PegParserImpl,
    new_p: PegParserImpl,
    res: Option<Parsed<R>>,
) -> bool {
    &&& new_p.wf()
    &&& new_p.source() == old_p.source()
    &&& old_p.index() <= new_p.index()
    &&& old_p.position() <= new_p.position()
    &&& match res {
        Some(r) => old_p.position() <= r.range.start && r.range.start <= r.range.end
            && r.range.end <= new_p.position(),
        None => true,
    }
}

/// A result covers exactly the text that the rule read: from the old cursor to the new one.
pub open spec fn spans<R>(old_p: PegParserImpl, new_p: PegParserImpl, res: Option<Parsed<R>>) -> bool {
    res matches Some(r) ==> r.range.start == old_p.position() && r.range.end == new_p.position()
}

/// A rule that backtracks: besides `body_ok`, a failure leaves the cursor where it was.
pub open spec fn rule_ok<R>(
    old_p: PegParserImpl,
    new_p: PegParserImpl,
    res: Option<Parsed<R>>,
) -> bool {
    &&& body_ok(old_p, new_p, res)
    &&& res is None ==> new_p.index() == old_p.index()
}

} // verus!
