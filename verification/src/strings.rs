//! A cursor over a string.
//!
//! Offsets and lengths count bytes of the UTF-8 text, as `str` does, so
//! the contracts here speak of a string by its bytes. A length handed in by
//! the caller has to end on a character boundary; the literals that the
//! point matches by itself always do.

use crate::point::Point;
use crate::progress::{Progress, Status};
use crate::slices::prefix_len;
use vstd::prelude::*;
use vstd::string::StringSliceAdditionalSpecFns;
use vstd::utf8::{
    encode_utf8, is_char_boundary, is_char_boundary_iff_is_leading_byte,
    is_char_boundary_start_end_of_seq, length_of_first_scalar, pop_first_scalar, valid_utf8,
};

verus! {

/// A literal and the value that stands for it.
pub type Identifier<'a, T> = (&'a str, T);

/// Tracks the location of parsing in a string, the most common case.
///
/// Helper methods are provided to do basic parsing tasks, such as finding
/// literal strings.
#[derive(Debug, Copy, Clone, PartialEq, Eq)]
pub struct StringPoint<'a> {
    /// The portion of the input string to start parsing next.
    pub s: &'a str,
    /// How far into the original string we are, in bytes.
    pub offset: usize,
}

/// A leading piece that is text by itself ends between two characters of
/// the whole.
pub proof fn lemma_prefix_ends_on_boundary(text: Seq<u8>, prefix: Seq<u8>)
    requires
        valid_utf8(text),
        valid_utf8(prefix),
        prefix.is_prefix_of(text),
    ensures
        is_char_boundary(text, prefix.len() as int),
    decreases prefix.len(),
{
    if prefix.len() > 0 {
        let n = length_of_first_scalar(text);
        assert(forall|i: int| 0 <= i < prefix.len() ==> prefix[i] == text[i]);
        assert(length_of_first_scalar(prefix) == n);
        assert(pop_first_scalar(prefix).is_prefix_of(pop_first_scalar(text)));
        lemma_prefix_ends_on_boundary(pop_first_scalar(text), pop_first_scalar(prefix));
    }
}

/// Where what follows a place is text by itself, the place lies between two
/// characters.
pub proof fn lemma_suffix_starts_on_boundary(text: Seq<u8>, at: int)
    requires
        valid_utf8(text),
        0 <= at <= text.len(),
        valid_utf8(text.skip(at)),
    ensures
        is_char_boundary(text, at),
{
    if at == text.len() {
        is_char_boundary_start_end_of_seq(text);
    } else {
        assert(text.skip(at)[0] == text[at]);
        is_char_boundary_iff_is_leading_byte(text, at);
    }
}

/// The index of the first of `identifiers`, from `from` on, whose literal
/// `text` begins with. Earlier entries win over later ones, also over longer
/// ones.
pub open spec fn first_match<T>(
    text: Seq<u8>,
    identifiers: Seq<Identifier<'_, T>>,
    from: int,
) -> Option<int>
    decreases identifiers.len() - from,
{
    if from < 0 || from >= identifiers.len() {
        None
    } else if identifiers[from].0.spec_bytes().is_prefix_of(text) {
        Some(from)
    } else {
        first_match(text, identifiers, from + 1)
    }
}

impl<'a> StringPoint<'a> {
    /// The text that is left, as bytes.
    pub open spec fn rest(&self) -> Seq<u8> {
        self.s.spec_bytes()
    }

    /// The offset counts the bytes before the point, so it can be advanced
    /// over all that is left: every point made by [`StringPoint::new`] and
    /// by the steps from it is of this kind.
    pub open spec fn wf(&self) -> bool {
        self.offset + self.rest().len() <= usize::MAX
    }

    /// Whether `p` is this point moved on by `len` bytes.
    pub open spec fn advanced_by(&self, len: int, p: StringPoint<'a>) -> bool {
        &&& p.offset == self.offset + len
        &&& p.rest() == self.rest().skip(len)
        &&& p.wf()
    }

    /// Whether `r` is the match of the first `len` bytes at this point: the
    /// value is this text, and the point stands behind it, so that the value
    /// and what is left make up what was left before.
    pub open spec fn matched_by<E>(
        &self,
        len: int,
        r: Progress<StringPoint<'a>, &'a str, E>,
    ) -> bool {
        &&& self.advanced_by(len, r.point)
        &&& r.status matches Status::Success(m) && {
            &&& m.spec_bytes() == self.rest().take(len)
            &&& m@ + r.point.s@ == self.s@
        }
    }

    /// Whether `r` is the failure at this point: nothing has moved.
    pub open spec fn failed_by<T>(&self, r: Progress<StringPoint<'a>, T, ()>) -> bool {
        r == (Progress { point: *self, status: Status::<T, ()>::Failure(()) })
    }

    /// The point at the start of `s`.
    #[inline]
    pub fn new(s: &'a str) -> (p: StringPoint<'a>)
        ensures
            p.s == s,
            p.offset == 0,
            p.wf(),
    {
        let bytes = s.as_bytes();
        proof {
            vstd::slice::axiom_spec_len(bytes);
        }
        StringPoint { s, offset: 0 }
    }

    /// Whether no input is left.
    #[inline]
    pub fn is_empty(self) -> (b: bool)
        ensures
            b == (self.s@.len() == 0),
            b == (self.rest().len() == 0),
    {
        let b = self.s.is_empty();
        proof {
            lemma_no_chars_no_bytes(self.s@);
        }
        b
    }

    /// The text between this point and a later one.
    ///
    /// The two points must come from the same input, `other` by steps from
    /// `self`; [`lemma_later_point_is_in_reach`] shows that this is enough.
    #[inline]
    pub fn to(self, other: StringPoint<'a>) -> (r: &'a str)
        requires
            self.offset <= other.offset,
            is_char_boundary(self.rest(), other.offset - self.offset),
        ensures
            r.spec_bytes() == self.rest().take(other.offset - self.offset),
    {
        let len = other.offset - self.offset;
        let (head, _) = self.s.split_at(len);
        head
    }

    /// The match of the next `len` bytes, which may be none. The caller
    /// knows that so many are left and that a character ends there.
    #[inline]
    pub fn success<E>(self, len: usize) -> (r: Progress<StringPoint<'a>, &'a str, E>)
        requires
            self.wf(),
            is_char_boundary(self.rest(), len as int),
        ensures
            self.matched_by(len as int, r),
    {
        let (matched, rest) = self.s.split_at(len);
        proof {
            vstd::utf8::encode_utf8_valid_utf8(self.s@);
            vstd::utf8::decode_utf8_split(self.rest(), len as int);
            vstd::utf8::encode_utf8_decode_utf8(self.s@);
            vstd::utf8::encode_utf8_decode_utf8(matched@);
            vstd::utf8::encode_utf8_decode_utf8(rest@);
        }
        Progress::success(StringPoint { s: rest, offset: self.offset + len }, matched)
    }

    /// A failure at this point.
    #[inline]
    pub fn fail<T>(self) -> (r: Progress<StringPoint<'a>, T, ()>)
        ensures
            self.failed_by(r),
    {
        Progress::failure(self, ())
    }

    /// Advances the point by the number of bytes. If the value is `None`,
    /// then no value was able to be consumed, and the result is a failure.
    #[inline]
    pub fn consume_to(self, l: Option<usize>) -> (r: Progress<StringPoint<'a>, &'a str, ()>)
        requires
            self.wf(),
            l matches Some(len) ==> is_char_boundary(self.rest(), len as int),
        ensures
            match l {
                Some(len) => self.matched_by(len as int, r),
                None => self.failed_by(r),
            },
    {
        match l {
            None => self.fail(),
            Some(len) => self.success(len),
        }
    }

    /// Advances the point if it starts with the literal, and fails without
    /// moving if it does not.
    #[inline]
    pub fn consume_literal(self, val: &str) -> (r: Progress<StringPoint<'a>, &'a str, ()>)
        requires
            self.wf(),
        ensures
            if val.spec_bytes().is_prefix_of(self.rest()) {
                self.matched_by(val.spec_bytes().len() as int, r)
            } else {
                self.failed_by(r)
            },
    {
        if starts_with(self.s, val) {
            self.success(val.len())
        } else {
            self.fail()
        }
    }

    /// Iterates through the identifiers and advances the point on the first
    /// matching identifier, whose value is cloned into the result.
    ///
    /// The first literal that matches wins, not the longest: where one
    /// literal begins with another, the longer one has to come first to be
    /// found at all.
    #[inline]
    pub fn consume_identifier<T>(self, identifiers: &[Identifier<T>]) -> (r: Progress<
        StringPoint<'a>,
        T,
        (),
    >) where T: Clone
        requires
            self.wf(),
        ensures
            match first_match(self.rest(), identifiers@, 0) {
                Some(i) => {
                    &&& self.advanced_by(identifiers@[i].0.spec_bytes().len() as int, r.point)
                    &&& r.status matches Status::Success(v) && cloned(identifiers@[i].1, v)
                },
                None => self.failed_by(r),
            },
    {
        let mut i: usize = 0;
        while i < identifiers.len()
            invariant
                self.wf(),
                i <= identifiers@.len(),
                first_match(self.rest(), identifiers@, 0) == first_match(
                    self.rest(),
                    identifiers@,
                    i as int,
                ),
            decreases identifiers@.len() - i,
        {
            let entry = &identifiers[i];
            if starts_with(self.s, entry.0) {
                let matched: Progress<StringPoint<'a>, &'a str, ()> = self.success(entry.0.len());
                return Progress { point: matched.point, status: Status::Success(entry.1.clone()) };
            }
            i += 1;
        }
        self.fail()
    }
}

impl<'a> Point for StringPoint<'a> {
    open spec fn depth(&self) -> usize {
        self.offset
    }

    /// The point at the start of an empty input.
    fn zero() -> (z: StringPoint<'a>)
        ensures
            z.offset == 0,
            z.s@.len() == 0,
    {
        proof {
            reveal_strlit("");
        }
        StringPoint { s: "", offset: 0 }
    }

    #[inline]
    fn is_past(&self, other: &Self) -> (b: bool) {
        self.offset > other.offset
    }
}

/// Text without characters has no bytes, and text without bytes no
/// characters.
proof fn lemma_no_chars_no_bytes(chars: Seq<char>)
    ensures
        chars.len() == 0 <==> encode_utf8(chars).len() == 0,
{
    reveal_with_fuel(encode_utf8, 2);
    if chars.len() > 0 {
        vstd::utf8::encode_utf8_first_scalar(chars);
    }
}

/// Whether `s` begins with `literal`; where it does, the literal's length is
/// a place in `s` where a character ends.
fn starts_with(s: &str, literal: &str) -> (b: bool)
    ensures
        b == literal.spec_bytes().is_prefix_of(s.spec_bytes()),
        b ==> is_char_boundary(s.spec_bytes(), literal.spec_bytes().len() as int),
{
    let found = prefix_len(s.as_bytes(), literal.as_bytes());
    proof {
        let text = s.spec_bytes();
        let prefix = literal.spec_bytes();
        if prefix.is_prefix_of(text) {
            assert(crate::slices::begins_with(text, prefix));
            vstd::utf8::encode_utf8_valid_utf8(s@);
            vstd::utf8::encode_utf8_valid_utf8(literal@);
            lemma_prefix_ends_on_boundary(text, prefix);
        }
        if crate::slices::begins_with(text, prefix) {
            assert(prefix =~= text.subrange(0, prefix.len() as int));
        }
    }
    found.is_some()
}

/// A point reached from `from` by steps over `len` bytes in all can be
/// handed to [`StringPoint::to`], and the text returned is what these steps
/// passed over: put before what is left at `to`, it gives what was left at
/// `from`.
pub proof fn lemma_later_point_is_in_reach(from: StringPoint<'_>, to: StringPoint<'_>, len: int)
    requires
        0 <= len <= from.rest().len(),
        to.offset == from.offset + len,
        to.rest() == from.rest().skip(len),
    ensures
        from.offset <= to.offset,
        is_char_boundary(from.rest(), to.offset - from.offset),
        from.rest().take(to.offset - from.offset).len() == len,
        from.rest().take(to.offset - from.offset) + to.rest() == from.rest(),
{
    vstd::utf8::encode_utf8_valid_utf8(from.s@);
    vstd::utf8::encode_utf8_valid_utf8(to.s@);
    lemma_suffix_starts_on_boundary(from.rest(), len);
    assert(from.rest().take(len) + from.rest().skip(len) =~= from.rest());
}

} // verus!
