//! Slicing and comparing text by byte offsets.
use crate::peekable_chars_with_position::PeekableCharsWithPosition;
use crate::peekable_chars_with_position::{
    chars_from, cursor_ok, lemma_chars_from, lemma_step, remaining, step,
};
use vstd::prelude::*;
use vstd::slice::*;
use vstd::string::*;
use vstd::utf8::*;

verus! {

/// `start..end` is a byte range of `src` that begins and ends between characters.
pub open spec fn range_ok(src: Seq<u8>, start: int, end: int) -> bool {
    &&& cursor_ok(src, start)
    &&& cursor_ok(src, end)
    &&& start <= end
}

/// The characters that the bytes `start..end` of `src` encode.
pub open spec fn text_of(src: Seq<u8>, start: int, end: int) -> Seq<char> {
    decode_utf8(src.subrange(start, end))
}

/// The part of `s` between the byte offsets `start` and `end`.
pub fn substring<'a>(s: &'a str, start: usize, end: usize) -> (r: &'a str)
    requires
        range_ok(s.spec_bytes(), start as int, end as int),
    ensures
        r.spec_bytes() == s.spec_bytes().subrange(start as int, end as int),
        r@ == text_of(s.spec_bytes(), start as int, end as int),
{
    let (head, _) = s.split_at(end);
    proof {
        let src = s.spec_bytes();
        let h = src.subrange(0, end as int);
        valid_utf8_split(src, end as int);
        if start < end {
            is_char_boundary_iff_not_is_continuation_byte(src, start as int);
            assert(h[start as int] == src[start as int]);
            is_char_boundary_iff_not_is_continuation_byte(h, start as int);
        } else {
            is_char_boundary_start_end_of_seq(h);
        }
    }
    let (_, r) = head.split_at(start);
    proof {
        assert(r.spec_bytes() =~= s.spec_bytes().subrange(start as int, end as int));
        encode_utf8_decode_utf8(r@);
    }
    r
}

/// Whether two strings hold the same text.
pub fn same_text(a: &str, b: &str) -> (r: bool)
    ensures
        r == (a@ == b@),
{
    let x = a.as_bytes();
    let y = b.as_bytes();
    proof {
        encode_utf8_decode_utf8(a@);
        encode_utf8_decode_utf8(b@);
    }
    if x.len() != y.len() {
        return false;
    }
    let mut i: usize = 0;
    while i < x.len()
        invariant
            i <= x.len(),
            x.len() == y.len(),
            x@ == a.spec_bytes(),
            y@ == b.spec_bytes(),
            forall|j: int| 0 <= j < i ==> x@[j] == y@[j],
        decreases x.len() - i,
    {
        if x[i] != y[i] {
            return false;
        }
        i = i + 1;
    }
    assert(x@ =~= y@);
    true
}

/// The text starts with a mark and the character that the mark stands
/// before: in a single-quoted literal a doubled quote, in a double-quoted
/// literal a backslash and the character after it.
pub open spec fn escapes(s: Seq<char>, single: bool) -> bool {
    s.len() >= 2 && if single {
        s[0] == '\'' && s[1] == '\''
    } else {
        s[0] == '\\'
    }
}

/// What the text between the quotes of a string literal stands for. In a
/// single-quoted literal each doubled quote stands for one quote; in a
/// double-quoted literal a backslash is left out and the character after
/// it stands for itself. Every other character stands for itself.
pub open spec fn decoded(s: Seq<char>, single: bool) -> Seq<char>
    decreases s.len(),
{
    if s.len() == 0 {
        seq![]
    } else if escapes(s, single) {
        seq![s[1]] + decoded(s.subrange(2, s.len() as int), single)
    } else {
        seq![s[0]] + decoded(s.subrange(1, s.len() as int), single)
    }
}

/// What the text `s` between the quotes of a string literal stands for.
pub fn decode(s: &str, single: bool) -> (r: String)
    ensures
        r@ == decoded(s@, single),
{
    let ghost src = s.spec_bytes();
    let mut chars = PeekableCharsWithPosition::new(s);
    let mut out = String::from_str("");
    proof {
        reveal_strlit("");
        chars.lemma_wf();
        encode_utf8_decode_utf8(s@);
        assert(src.subrange(0, src.len() as int) =~= src);
        assert(out@ + decoded(chars_from(src, 0), single) =~= decoded(s@, single));
    }
    loop
        invariant_except_break
            out@ + decoded(chars_from(src, chars.position()), single) == decoded(s@, single),
        invariant
            chars.wf(),
            chars.source() == src,
            src == s.spec_bytes(),
        ensures
            out@ == decoded(s@, single),
        decreases remaining(src, chars.position()),
    {
        let p = chars.pos();
        proof {
            chars.lemma_wf();
            lemma_chars_from(src, p as int);
            if p < src.len() {
                lemma_step(src, p as int);
            }
        }
        let c = match chars.next() {
            Some(c) => c,
            None => {
                proof {
                    assert(out@ + Seq::<char>::empty() =~= out@);
                }
                break ;
            },
        };
        let q = chars.pos();
        proof {
            chars.lemma_wf();
            lemma_chars_from(src, q as int);
            if q < src.len() {
                lemma_step(src, q as int);
            }
        }
        let ghost rest = chars_from(src, p as int);
        let ghost before = out@;
        let escaping = match chars.peek() {
            Some(e) => if single {
                c == '\'' && e == '\''
            } else {
                c == '\\'
            },
            None => false,
        };
        proof {
            assert(rest.subrange(1, rest.len() as int) =~= chars_from(src, q as int));
            assert(escaping == escapes(rest, single));
        }
        if escaping {
            chars.next();
            let r = chars.pos();
            proof {
                chars.lemma_wf();
                assert(rest.subrange(2, rest.len() as int) =~= chars_from(src, r as int));
            }
            out.append(substring(s, q, r));
            proof {
                assert(out@ =~= before + seq![rest[1]]);
                assert(out@ + decoded(chars_from(src, r as int), single) =~= before + decoded(
                    rest,
                    single,
                ));
            }
        } else {
            out.append(substring(s, p, q));
            proof {
                assert(out@ =~= before + seq![rest[0]]);
                assert(out@ + decoded(chars_from(src, q as int), single) =~= before + decoded(
                    rest,
                    single,
                ));
            }
        }
    }
    out
}

/// The character of the decimal digit `d`.
pub open spec fn digit(d: nat) -> char {
    if d == 0 {
        '0'
    } else if d == 1 {
        '1'
    } else if d == 2 {
        '2'
    } else if d == 3 {
        '3'
    } else if d == 4 {
        '4'
    } else if d == 5 {
        '5'
    } else if d == 6 {
        '6'
    } else if d == 7 {
        '7'
    } else if d == 8 {
        '8'
    } else {
        '9'
    }
}

/// The decimal numeral of `n`, without leading zeros.
pub open spec fn decimal(n: nat) -> Seq<char>
    decreases n,
{
    if n < 10 {
        seq![digit(n)]
    } else {
        decimal(n / 10).push(digit(n % 10))
    }
}

fn digit_text(d: usize) -> (r: &'static str)
    requires
        d < 10,
    ensures
        r@ == seq![digit(d as nat)],
{
    proof {
        reveal_strlit("0");
        reveal_strlit("1");
        reveal_strlit("2");
        reveal_strlit("3");
        reveal_strlit("4");
        reveal_strlit("5");
        reveal_strlit("6");
        reveal_strlit("7");
        reveal_strlit("8");
        reveal_strlit("9");
    }
    let r = if d == 0 {
        "0"
    } else if d == 1 {
        "1"
    } else if d == 2 {
        "2"
    } else if d == 3 {
        "3"
    } else if d == 4 {
        "4"
    } else if d == 5 {
        "5"
    } else if d == 6 {
        "6"
    } else if d == 7 {
        "7"
    } else if d == 8 {
        "8"
    } else {
        "9"
    };
    assert(r@ =~= seq![digit(d as nat)]);
    r
}

/// The decimal numeral of `n`.
pub fn decimal_string(n: usize) -> (r: String)
    ensures
        r@ == decimal(n as nat),
    decreases n,
{
    if n < 10 {
        String::from_str(digit_text(n))
    } else {
        let mut s = decimal_string(n / 10);
        s.append(digit_text(n % 10));
        assert(s@ =~= decimal((n / 10) as nat).push(digit((n % 10) as nat)));
        s
    }
}

} // verus!
