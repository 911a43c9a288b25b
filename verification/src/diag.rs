//! Rendering of one located error against the source text: a pointer to the
//! row and column, the source line, a caret under the column, and the
//! message.

use crate::parser::{ErrorView, ParsingError};
use crate::text::{blanks, decimal, decimal_text, push_blanks, slice, slice_of};
use vstd::prelude::*;
use vstd::string::*;
use vstd::utf8::*;

verus! {

/// A value together with the source text that it speaks of.
pub struct WithCode<'a, 'b, T> {
    pub code: &'a str,
    pub t: &'b T,
}

impl<'a, 'b, T> WithCode<'a, 'b, T> {
    /// Pairs the value `t` with the source text `code`.
    pub fn new(code: &'a str, t: &'b T) -> (w: WithCode<'a, 'b, T>)
        ensures
            w.code == code,
            w.t == t,
    {
        WithCode { code, t }
    }
}

/// Whether a character has the Unicode property White_Space.
pub uninterp spec fn is_white_space(c: char) -> bool;

/// `char::is_whitespace` tells whether a character has the Unicode property
/// White_Space.
#[verifier::external_body]
fn is_whitespace(c: char) -> (b: bool)
    ensures
        b == is_white_space(c),
{
    c.is_whitespace()
}

/// The number of whitespace characters that `s` starts with.
pub open spec fn leading_space(s: Seq<char>) -> nat
    decreases s.len(),
{
    if s.len() > 0 && is_white_space(s[0]) {
        1 + leading_space(s.drop_first())
    } else {
        0
    }
}

/// The number of whitespace characters that `s` ends with.
pub open spec fn trailing_space(s: Seq<char>) -> nat
    decreases s.len(),
{
    if s.len() > 0 && is_white_space(s.last()) {
        1 + trailing_space(s.drop_last())
    } else {
        0
    }
}

/// The text `s` without the whitespace that it starts and ends with.
pub open spec fn trimmed(s: Seq<char>) -> Seq<char> {
    let rest = s.skip(leading_space(s) as int);
    rest.take(rest.len() - trailing_space(rest))
}

/// A text that starts with `n` whitespace characters, followed by the end
/// of the text or by another character, has exactly `n` leading
/// whitespace characters.
pub proof fn lemma_leading_space(s: Seq<char>, n: int)
    requires
        0 <= n <= s.len(),
        forall|i: int| 0 <= i < n ==> is_white_space(#[trigger] s[i]),
        n < s.len() ==> !is_white_space(s[n]),
    ensures
        leading_space(s) == n,
    decreases n,
{
    if n > 0 {
        let rest = s.drop_first();
        lemma_leading_space(rest, n - 1);
    }
}

/// A text that ends with `n` whitespace characters, preceded by the start
/// of the text or by another character, has exactly `n` trailing whitespace
/// characters.
pub proof fn lemma_trailing_space(s: Seq<char>, n: int)
    requires
        0 <= n <= s.len(),
        forall|i: int| s.len() - n <= i < s.len() ==> is_white_space(#[trigger] s[i]),
        n < s.len() ==> !is_white_space(s[s.len() - n - 1]),
    ensures
        trailing_space(s) == n,
    decreases n,
{
    if n > 0 {
        let rest = s.drop_last();
        lemma_trailing_space(rest, n - 1);
    }
}

/// The text without the whitespace that it starts and ends with.
pub fn trim(text: &str) -> (r: &str)
    ensures
        r@ == trimmed(text@),
{
    let n = text.unicode_len();
    let mut i: usize = 0;
    while i < n && is_whitespace(text.get_char(i))
        invariant
            i <= n,
            n == text@.len(),
            forall|k: int| 0 <= k < i ==> is_white_space(#[trigger] text@[k]),
        decreases n - i,
    {
        i += 1;
    }
    let ghost rest = text@.skip(i as int);
    let mut j: usize = n;
    while j > i && is_whitespace(text.get_char(j - 1))
        invariant
            i <= j <= n,
            n == text@.len(),
            forall|k: int| j <= k < n ==> is_white_space(#[trigger] text@[k]),
        decreases j,
    {
        j -= 1;
    }
    proof {
        lemma_leading_space(text@, i as int);
        lemma_trailing_space(rest, n - j);
    }
    text.substring_char(i, j)
}

/// The byte of the line feed.
pub const LINE_FEED: u8 = 10;

/// The offset of the last line feed before `offset`, or 0 where there is
/// none.
pub open spec fn line_start(bytes: Seq<u8>, offset: int) -> int
    decreases offset,
{
    if offset <= 0 {
        0
    } else if bytes[offset - 1] == LINE_FEED {
        offset - 1
    } else {
        line_start(bytes, offset - 1)
    }
}

/// The offset of the first line feed at or after `offset`, or the length of
/// the text where there is none.
pub open spec fn line_end(bytes: Seq<u8>, offset: int) -> int
    decreases bytes.len() - offset,
{
    if offset >= bytes.len() {
        bytes.len() as int
    } else if bytes[offset] == LINE_FEED {
        offset
    } else {
        line_end(bytes, offset + 1)
    }
}

/// The line of `code` around the byte offset `offset`, without the
/// whitespace around it.
pub open spec fn line_at(code: Seq<char>, offset: int) -> Seq<char> {
    trimmed(
        slice_of(code, line_start(encode_utf8(code), offset), line_end(encode_utf8(code), offset)),
    )
}

/// The start of the line around `offset`, found by looking back from
/// `offset`.
fn find_line_start(bytes: &[u8], offset: usize) -> (r: usize)
    requires
        offset <= bytes.len(),
    ensures
        r == line_start(bytes@, offset as int),
        r <= offset,
        r == 0 || bytes@[r as int] == LINE_FEED,
{
    let mut i: usize = offset;
    while i > 0 && bytes[i - 1] != LINE_FEED
        invariant
            i <= offset <= bytes.len(),
            line_start(bytes@, offset as int) == line_start(bytes@, i as int),
        decreases i,
    {
        i -= 1;
    }
    if i > 0 {
        i - 1
    } else {
        0
    }
}

/// The end of the line around `offset`, found by looking on from `offset`.
fn find_line_end(bytes: &[u8], offset: usize) -> (r: usize)
    requires
        offset <= bytes.len(),
    ensures
        r == line_end(bytes@, offset as int),
        offset <= r <= bytes.len(),
        r == bytes.len() || bytes@[r as int] == LINE_FEED,
{
    let mut i: usize = offset;
    while i < bytes.len() && bytes[i] != LINE_FEED
        invariant
            offset <= i <= bytes.len(),
            line_end(bytes@, offset as int) == line_end(bytes@, i as int),
        decreases bytes.len() - i,
    {
        i += 1;
    }
    i
}

/// A line feed, the start and the end of a text are places between
/// characters.
pub proof fn lemma_line_feed_is_boundary(bytes: Seq<u8>, i: int)
    requires
        valid_utf8(bytes),
        0 <= i <= bytes.len(),
        i == 0 || i == bytes.len() || bytes[i] == LINE_FEED,
    ensures
        is_char_boundary(bytes, i),
{
    is_char_boundary_start_end_of_seq(bytes);
    if 0 < i < bytes.len() {
        is_char_boundary_iff_not_is_continuation_byte(bytes, i);
    }
}

/// The line of `code` around the byte offset `offset`, without the
/// whitespace around it.
pub fn source_line(code: &str, offset: usize) -> (line: &str)
    requires
        offset <= encode_utf8(code@).len(),
    ensures
        line@ == line_at(code@, offset as int),
{
    let bytes = code.as_bytes();
    let start = find_line_start(bytes, offset);
    let end = find_line_end(bytes, offset);
    proof {
        encode_utf8_valid_utf8(code@);
        lemma_line_feed_is_boundary(bytes@, start as int);
        lemma_line_feed_is_boundary(bytes@, end as int);
    }
    trim(slice(code, start, end))
}

/// The rendering of the error `e` against the source text `code`, in four
/// lines: a pointer to the row and column, both counted from one; the
/// source line, after the row number; a caret under the column of the
/// error; and the message under the caret.
pub open spec fn rendering(code: Seq<char>, e: ErrorView) -> Seq<char> {
    let row = decimal((e.loc.row + 1) as nat);
    let col = decimal((e.loc.col + 1) as nat);
    let fill = (row.len() + 3 + e.loc.col) as nat;
    let line = line_at(code, e.offset as int);
    blanks(row.len()) + "-->"@ + " "@ + row + ":"@ + col + "\n"@ + " "@ + row + " | "@ + line + "\n"@
        + blanks(fill) + " ^"@ + "\n"@ + blanks(fill) + " "@ + e.msg + "\n"@
}

/// Whether `e` can be rendered against `code`: its offset lies in the text,
/// and the row and the column counted from one, and the width of what is
/// put before the caret, are numbers of the machine.
pub open spec fn renderable(code: Seq<char>, e: ErrorView) -> bool {
    &&& e.offset <= encode_utf8(code).len()
    &&& e.loc.row < usize::MAX
    &&& e.loc.col < usize::MAX
    &&& decimal((e.loc.row + 1) as nat).len() + 3 + e.loc.col <= usize::MAX
}

impl<'a, 'b> WithCode<'a, 'b, ParsingError> {
    /// Whether the error can be rendered against the source text.
    pub fn can_render(&self) -> (b: bool)
        ensures
            b == renderable(self.code@, self.t@),
    {
        if self.t.offset > self.code.as_bytes().len() || self.t.loc.row == usize::MAX
            || self.t.loc.col == usize::MAX {
            return false;
        }
        let width = decimal_text((self.t.loc.row + 1) as u64).as_str().unicode_len();
        self.t.loc.col <= usize::MAX - 3 - width
    }

    /// Renders the error against the source text.
    pub fn to_string(&self) -> (s: String)
        requires
            renderable(self.code@, self.t@),
        ensures
            s@ == rendering(self.code@, self.t@),
    {
        let line = source_line(self.code, self.t.offset);
        let row = decimal_text((self.t.loc.row + 1) as u64);
        let col = decimal_text((self.t.loc.col + 1) as u64);
        let row_num_width = row.as_str().unicode_len();
        let fill = row_num_width + 3;
        let mut s = String::new();
        push_blanks(&mut s, row_num_width);
        s.append("-->");
        s.append(" ");
        s.append(row.as_str());
        s.append(":");
        s.append(col.as_str());
        s.append("\n");
        s.append(" ");
        s.append(row.as_str());
        s.append(" | ");
        s.append(line);
        s.append("\n");
        push_blanks(&mut s, fill + self.t.loc.col);
        s.append(" ^");
        s.append("\n");
        push_blanks(&mut s, fill + self.t.loc.col);
        s.append(" ");
        s.append(self.t.msg.as_str());
        s.append("\n");
        s
    }
}

} // verus!
