//! Helpers on UTF-8 text: comparison, slicing by byte offsets, and the
//! notation of numbers.

use vstd::prelude::*;
use vstd::string::*;
use vstd::utf8::*;

verus! {

/// Two texts with the same encoding are the same text.
pub proof fn lemma_encoding_is_injective(a: Seq<char>, b: Seq<char>)
    requires
        encode_utf8(a) == encode_utf8(b),
    ensures
        a == b,
{
    encode_utf8_decode_utf8(a);
    encode_utf8_decode_utf8(b);
}

/// Whether two strings hold the same text.
pub fn str_eq(a: &str, b: &str) -> (r: bool)
    ensures
        r == (a@ == b@),
{
    let x = a.as_bytes();
    let y = b.as_bytes();
    if x.len() != y.len() {
        return false;
    }
    let mut i: usize = 0;
    while i < x.len()
        invariant
            i <= x.len(),
            x.len() == y.len(),
            x@ == encode_utf8(a@),
            y@ == encode_utf8(b@),
            forall|j: int| 0 <= j < i ==> x@[j] == y@[j],
        decreases x.len() - i,
    {
        if x[i] != y[i] {
            return false;
        }
        i += 1;
    }
    proof {
        assert(x@ =~= y@);
        lemma_encoding_is_injective(a@, b@);
    }
    true
}

/// Whether `start..end` is a range of whole characters of `text`, counted in
/// bytes of its encoding.
pub open spec fn is_slice(text: Seq<char>, start: int, end: int) -> bool {
    &&& 0 <= start <= end <= encode_utf8(text).len()
    &&& is_char_boundary(encode_utf8(text), start)
    &&& is_char_boundary(encode_utf8(text), end)
}

/// The characters that the bytes `start..end` of the encoding of `text` hold.
pub open spec fn slice_of(text: Seq<char>, start: int, end: int) -> Seq<char> {
    decode_utf8(encode_utf8(text).subrange(start, end))
}

/// A character boundary of a text is one of each prefix that reaches it.
pub proof fn lemma_boundary_in_prefix(bytes: Seq<u8>, start: int, end: int)
    requires
        valid_utf8(bytes),
        0 <= start <= end <= bytes.len(),
        is_char_boundary(bytes, start),
        is_char_boundary(bytes, end),
    ensures
        valid_utf8(bytes.subrange(0, end)),
        is_char_boundary(bytes.subrange(0, end), start),
{
    let head = bytes.subrange(0, end);
    valid_utf8_split(bytes, end);
    if start == end {
        is_char_boundary_start_end_of_seq(head);
    } else {
        is_char_boundary_iff_not_is_continuation_byte(bytes, start);
        is_char_boundary_iff_not_is_continuation_byte(head, start);
    }
}

/// Whether `start..end` is a range of whole characters of `text`.
pub fn check_slice(text: &str, start: usize, end: usize) -> (r: bool)
    ensures
        r == is_slice(text@, start as int, end as int),
{
    start <= end && end <= text.as_bytes().len() && text.is_char_boundary(start)
        && text.is_char_boundary(end)
}

/// The part of `text` that lies between the byte offsets `start` and `end`.
pub fn slice<'a>(text: &'a str, start: usize, end: usize) -> (r: &'a str)
    requires
        is_slice(text@, start as int, end as int),
    ensures
        r@ == slice_of(text@, start as int, end as int),
{
    let ghost bytes = encode_utf8(text@);
    proof {
        encode_utf8_valid_utf8(text@);
        lemma_boundary_in_prefix(bytes, start as int, end as int);
    }
    let (head, _) = text.split_at(end);
    let (_, part) = head.split_at(start);
    proof {
        assert(encode_utf8(part@) =~= bytes.subrange(start as int, end as int));
        encode_utf8_decode_utf8(part@);
    }
    part
}

/// The text of `n` blanks.
pub open spec fn blanks(n: nat) -> Seq<char> {
    Seq::new(n, |i: int| ' ')
}

/// The decimal digit of a number below ten.
pub open spec fn digit(d: nat) -> char {
    if d == 0 {
        '0'
    } else if d == 1 {
        '1'
    } else if d == 2 {
        '2'
    } else if d == 3 {
        '3'
    } else if d == 4 {
        '4'
    } else if d == 5 {
        '5'
    } else if d == 6 {
        '6'
    } else if d == 7 {
        '7'
    } else if d == 8 {
        '8'
    } else {
        '9'
    }
}

/// The decimal notation of `n`.
pub open spec fn decimal(n: nat) -> Seq<char>
    decreases n,
{
    if n < 10 {
        seq![digit(n)]
    } else {
        decimal(n / 10).push(digit(n % 10))
    }
}

/// The text of one decimal digit.
fn digit_text(d: u64) -> (s: &'static str)
    requires
        d < 10,
    ensures
        s@ == seq![digit(d as nat)],
{
    proof {
        reveal_strlit("0");
        reveal_strlit("1");
        reveal_strlit("2");
        reveal_strlit("3");
        reveal_strlit("4");
        reveal_strlit("5");
        reveal_strlit("6");
        reveal_strlit("7");
        reveal_strlit("8");
        reveal_strlit("9");
    }
    let s = if d == 0 {
        "0"
    } else if d == 1 {
        "1"
    } else if d == 2 {
        "2"
    } else if d == 3 {
        "3"
    } else if d == 4 {
        "4"
    } else if d == 5 {
        "5"
    } else if d == 6 {
        "6"
    } else if d == 7 {
        "7"
    } else if d == 8 {
        "8"
    } else {
        "9"
    };
    s
}

/// The power of ten with the exponent `k`.
pub open spec fn pow10(k: nat) -> nat
    decreases k,
{
    if k == 0 {
        1
    } else {
        10 * pow10((k - 1) as nat)
    }
}

/// A number below the power of ten with the exponent `k` has at most `k`
/// digits.
pub proof fn lemma_decimal_width(n: nat, k: nat)
    requires
        k >= 1,
        n < pow10(k),
    ensures
        1 <= decimal(n).len() <= k,
    decreases k,
{
    if n >= 10 {
        assert(k >= 2) by {
            reveal_with_fuel(pow10, 2);
        }
        lemma_decimal_width(n / 10, (k - 1) as nat);
    }
}

/// The decimal notation of `n`.
pub fn decimal_text(n: u64) -> (s: String)
    ensures
        s@ == decimal(n as nat),
        1 <= s@.len() <= 20,
    decreases n,
{
    proof {
        assert(pow10(20) == 100000000000000000000) by {
            reveal_with_fuel(pow10, 21);
        }
        lemma_decimal_width(n as nat, 20);
    }
    if n < 10 {
        digit_text(n).to_owned()
    } else {
        let mut s = decimal_text(n / 10);
        s.append(digit_text(n % 10));
        s
    }
}

/// Adds `n` blanks to `s`.
pub fn push_blanks(s: &mut String, n: usize)
    ensures
        final(s)@ == old(s)@ + blanks(n as nat),
{
    let mut i: usize = 0;
    proof {
        reveal_strlit(" ");
    }
    while i < n
        invariant
            i <= n,
            s@ == old(s)@ + blanks(i as nat),
            " "@ == seq![' '],
        decreases n - i,
    {
        s.append(" ");
        i += 1;
    }
}

} // verus!
