//! A cursor over the characters of a string that always knows the byte
//! offset of the character it is about to yield.
use vstd::prelude::*;
use vstd::string::*;
use vstd::utf8::*;

verus! {

/// Number of bytes in the encoding of the character that starts at `pos`.
pub open spec fn char_width(src: Seq<u8>, pos: int) -> int {
    if src[pos] < 0x80 {
        1
    } else if src[pos] < 0xe0 {
        2
    } else if src[pos] < 0xf0 {
        3
    } else {
        4
    }
}

/// The character whose encoding starts at byte `pos` of `src`.
pub open spec fn char_at(src: Seq<u8>, pos: int) -> char {
    decode_first_scalar(src.subrange(pos, src.len() as int)) as char
}

/// The character a cursor at `pos` would yield next, if any.
pub open spec fn peek_at(src: Seq<u8>, pos: int) -> Option<char> {
    if 0 <= pos < src.len() {
        Some(char_at(src, pos))
    } else {
        None
    }
}

/// The position of a cursor at `pos` after it has yielded one character.
pub open spec fn step(src: Seq<u8>, pos: int) -> int {
    if 0 <= pos < src.len() {
        pos + char_width(src, pos)
    } else {
        pos
    }
}

/// Number of bytes that a cursor at `pos` has still before it.
pub open spec fn remaining(src: Seq<u8>, pos: int) -> nat {
    if pos <= src.len() {
        (src.len() - pos) as nat
    } else {
        0
    }
}

/// `pos` is a place where a cursor over `src` can stand: the start of a
/// character or the end of the text.
pub open spec fn cursor_ok(src: Seq<u8>, pos: int) -> bool {
    &&& valid_utf8(src)
    &&& src.len() <= usize::MAX
    &&& 0 <= pos <= src.len()
    &&& is_char_boundary(src, pos)
}

/// Stepping from a valid cursor position gives a valid, strictly later one.
pub proof fn lemma_step(src: Seq<u8>, pos: int)
    requires
        cursor_ok(src, pos),
        pos < src.len(),
    ensures
        cursor_ok(src, step(src, pos)),
        pos < step(src, pos) <= src.len(),
        decode_utf8(src.subrange(pos, src.len() as int)).len() > 0,
        decode_utf8(src.subrange(pos, src.len() as int))[0] == char_at(src, pos),
{
    let rest = src.subrange(pos, src.len() as int);
    valid_utf8_split(src, pos);
    assert(valid_utf8(rest));
    assert(valid_first_scalar(rest) && valid_utf8(pop_first_scalar(rest)));
    assert(rest[0] == src[pos]);
    let w = length_of_first_scalar(rest);
    assert(w == char_width(src, pos));
    let next = pos + w;
    assert(next <= src.len());
    if next < src.len() {
        let tail = pop_first_scalar(rest);
        assert(tail.len() > 0);
        assert(tail[0] == src[next]);
        assert(valid_first_scalar(tail));
        assert(!is_continuation_byte(src[next]));
        is_char_boundary_iff_not_is_continuation_byte(src, next);
    } else {
        is_char_boundary_start_end_of_seq(src);
    }
}

/// A character of the ASCII range takes one byte.
pub proof fn lemma_ascii_width(src: Seq<u8>, pos: int)
    requires
        cursor_ok(src, pos),
        pos < src.len(),
        char_at(src, pos) as u32 <= 0x7f,
    ensures
        step(src, pos) == pos + 1,
{
    let rest = src.subrange(pos, src.len() as int);
    valid_utf8_split(src, pos);
    assert(valid_first_scalar(rest));
    assert(rest[0] == src[pos]);
    let v = decode_first_scalar(rest);
    assert(not_surrogate(v));
    assert(v <= 0x10ffff) by {
        assert(not_overlong_encoding(v, length_of_first_scalar(rest)));
        let b0 = rest[0];
        if is_leading_byte_width_1(b0) {
            assert(b0 & 0x7f <= 0x7f) by (bit_vector);
        } else if is_leading_byte_width_2(b0) {
            let b1 = rest[1];
            assert((((b0 & 0x1f) as u32) << 6) | ((b1 & 0x3f) as u32) <= 0x7ff) by (bit_vector);
        } else if is_leading_byte_width_3(b0) {
            let b1 = rest[1];
            let b2 = rest[2];
            assert((((b0 & 0x0f) as u32) << 12) | (((b1 & 0x3f) as u32) << 6) | ((b2
                & 0x3f) as u32) <= 0xffff) by (bit_vector);
        }
    }
    assert((v as char) as u32 == v);
}

/// The characters from `pos` on.
pub open spec fn chars_from(src: Seq<u8>, pos: int) -> Seq<char> {
    decode_utf8(src.subrange(pos, src.len() as int))
}

/// The characters from a valid cursor position on are the character at
/// the position and those from the next position on; the bytes between
/// the two positions are that character's.
pub proof fn lemma_chars_from(src: Seq<u8>, pos: int)
    requires
        cursor_ok(src, pos),
    ensures
        pos < src.len() ==> chars_from(src, pos) == seq![char_at(src, pos)] + chars_from(
            src,
            step(src, pos),
        ) && decode_utf8(src.subrange(pos, step(src, pos))) == seq![char_at(src, pos)],
        pos == src.len() ==> chars_from(src, pos) == Seq::<char>::empty(),
{
    let rest = src.subrange(pos, src.len() as int);
    if pos < src.len() {
        lemma_step(src, pos);
        valid_utf8_split(src, pos);
        let w = length_of_first_scalar(rest);
        let next = step(src, pos);
        assert(next == pos + w);
        assert(pop_first_scalar(rest) =~= src.subrange(next, src.len() as int));
        assert(chars_from(src, pos) =~= seq![char_at(src, pos)] + chars_from(src, next));
        // The first character alone.
        assert(is_char_boundary(rest, w)) by {
            reveal_with_fuel(is_char_boundary, 2);
            is_char_boundary_start_end_of_seq(pop_first_scalar(rest));
        }
        decode_utf8_split(rest, w);
        let head = rest.subrange(0, w);
        assert(head =~= src.subrange(pos, next));
        assert(rest.subrange(w, rest.len() as int) =~= pop_first_scalar(rest));
        let a = decode_utf8(head);
        let b = decode_utf8(pop_first_scalar(rest));
        assert(a + b == seq![char_at(src, pos)] + b);
        assert(a.len() == 1) by {
            assert((a + b).len() == a.len() + b.len());
            assert((seq![char_at(src, pos)] + b).len() == 1 + b.len());
        }
        assert(a[0] == (a + b)[0]);
        assert(a =~= seq![char_at(src, pos)]);
    } else {
        assert(rest =~= Seq::<u8>::empty());
    }
}

pub struct PeekableCharsWithPosition<'a> {
    input: &'a str,
    current_pos: usize,
    size: usize,
}

impl<'a> PeekableCharsWithPosition<'a> {
    /// The bytes of the text the cursor runs over.
    pub closed spec fn source(&self) -> Seq<u8> {
        self.input.spec_bytes()
    }

    /// Byte offset of the character that `peek` and `next` yield.
    pub closed spec fn position(&self) -> int {
        self.current_pos as int
    }

    /// The cursor stands on a character boundary of its text.
    pub closed spec fn wf(&self) -> bool {
        &&& cursor_ok(self.source(), self.position())
        &&& self.size == self.source().len()
    }

    /// A well-formed cursor stands at a valid place of its text.
    pub proof fn lemma_wf(&self)
        requires
            self.wf(),
        ensures
            cursor_ok(self.source(), self.position()),
    {
    }

    pub fn new(input: &'a str) -> (r: PeekableCharsWithPosition<'a>)
        ensures
            r.wf(),
            r.source() == input.spec_bytes(),
            r.position() == 0,
    {
        let size = input.as_bytes().len();
        proof {
            encode_utf8_valid_utf8(input@);
            is_char_boundary_start_end_of_seq(input.spec_bytes());
        }
        PeekableCharsWithPosition { input, current_pos: 0, size }
    }

    /// Returns the next element without advancing the position of the iterator.
    pub fn peek(&self) -> (r: Option<char>)
        requires
            self.wf(),
        ensures
            r == peek_at(self.source(), self.position()),
    {
        if self.current_pos >= self.size {
            return None;
        }
        let (_, rest) = self.input.split_at(self.current_pos);
        proof {
            lemma_step(self.source(), self.position());
            encode_utf8_decode_utf8(rest@);
        }
        Some(rest.get_char(0))
    }

    /// Returns byte position of current element (the one that will be returned with next/peek).
    pub fn pos(&self) -> (r: usize)
        ensures
            r == self.position(),
    {
        self.current_pos
    }

    /// Returns the current element and advances the iterator.
    pub fn next(&mut self) -> (r: Option<char>)
        requires
            old(self).wf(),
        ensures
            final(self).wf(),
            final(self).source() == old(self).source(),
            r == peek_at(old(self).source(), old(self).position()),
            final(self).position() == step(old(self).source(), old(self).position()),
    {
        let ret = self.peek();
        if self.current_pos < self.size {
            let bytes = self.input.as_bytes();
            proof {
                lemma_step(self.source(), self.position());
            }
            let b = bytes[self.current_pos];
            let width: usize = if b < 0x80 {
                1
            } else if b < 0xe0 {
                2
            } else if b < 0xf0 {
                3
            } else {
                4
            };
            self.current_pos = self.current_pos + width;
        }
        ret
    }
}

} // verus!
