//! Splitting text into lines.
//!
//! A text is cut at every line feed. The pieces, joined again with one line feed between
//! neighbours, give back the text: a text with `n` line feeds has `n + 1` pieces, the last of
//! which is empty when the text ends in a line feed. The empty text alone has no line at all.

use vstd::prelude::*;
use vstd::utf8::*;

verus! {

/// The index of the first line feed in `s`, or `s.len()` when `s` holds none.
pub open spec fn first_newline(s: Seq<char>) -> int
    decreases s.len(),
{
    if s.len() == 0 || s[0] == '\n' {
        0
    } else {
        1 + first_newline(s.drop_first())
    }
}

/// Whether `s` holds no line feed.
pub open spec fn newline_free(s: Seq<char>) -> bool {
    forall|i: int| 0 <= i < s.len() ==> s[i] != '\n'
}

/// The pieces of `s` between its line feeds, in order. There is always at least one piece.
pub open spec fn split_lines(s: Seq<char>) -> Seq<Seq<char>>
    decreases s.len(),
{
    let n = first_newline(s);
    if 0 <= n < s.len() {
        seq![s.take(n)] + split_lines(s.skip(n + 1))
    } else {
        seq![s]
    }
}

/// The lines of a text: none for the empty text, else its pieces between line feeds.
pub open spec fn lines_of(s: Seq<char>) -> Seq<Seq<char>> {
    if s.len() == 0 {
        Seq::empty()
    } else {
        split_lines(s)
    }
}

/// The lines joined with one line feed between neighbours.
pub open spec fn join_lines(lines: Seq<Seq<char>>) -> Seq<char>
    decreases lines.len(),
{
    if lines.len() == 0 {
        Seq::empty()
    } else if lines.len() == 1 {
        lines[0]
    } else {
        lines[0] + seq!['\n'] + join_lines(lines.drop_first())
    }
}

/// The lines of a text that are written out: all of them, but for an empty last line, which only
/// records that the text ended in a line feed.
pub open spec fn written_lines(s: Seq<char>) -> Seq<Seq<char>> {
    let lines = lines_of(s);
    if lines.len() > 0 && lines.last().len() == 0 {
        lines.drop_last()
    } else {
        lines
    }
}

/// `first_newline` is the one index before which there is no line feed and at which there is
/// one, or the text ends.
pub proof fn lemma_first_newline(s: Seq<char>)
    ensures
        0 <= first_newline(s) <= s.len(),
        newline_free(s.take(first_newline(s))),
        first_newline(s) < s.len() ==> s[first_newline(s)] == '\n',
    decreases s.len(),
{
    if s.len() == 0 || s[0] == '\n' {
    } else {
        let t = s.drop_first();
        lemma_first_newline(t);
        let n = first_newline(s);
        assert forall|i: int| 0 <= i < s.take(n).len() implies s.take(n)[i] != '\n' by {
            if i > 0 {
                assert(s.take(n)[i] == t.take(n - 1)[i - 1]);
            }
        }
    }
}

/// An index before which `s` has no line feed, and at which it has one or ends, is
/// `first_newline(s)`.
pub proof fn lemma_first_newline_is(s: Seq<char>, n: int)
    requires
        0 <= n <= s.len(),
        newline_free(s.take(n)),
        n < s.len() ==> s[n] == '\n',
    ensures
        first_newline(s) == n,
    decreases s.len(),
{
    if s.len() == 0 {
    } else if s[0] == '\n' {
        if n > 0 {
            assert(s.take(n)[0] == '\n');
        }
    } else {
        let t = s.drop_first();
        let head = t.take(n - 1);
        assert forall|i: int| 0 <= i < head.len() implies head[i] != '\n' by {
            assert(head[i] == s.take(n)[i + 1]);
        }
        lemma_first_newline_is(t, n - 1);
    }
}

/// The pieces of a text hold no line feed, and there is one piece more than there are line
/// feeds, so at least one.
pub proof fn lemma_split_lines_pieces(s: Seq<char>)
    ensures
        split_lines(s).len() >= 1,
        forall|i: int| 0 <= i < split_lines(s).len() ==> newline_free(#[trigger] split_lines(s)[i]),
        split_lines(s).len() == 1 <==> newline_free(s),
    decreases s.len(),
{
    lemma_first_newline(s);
    let n = first_newline(s);
    if n < s.len() {
        let rest = s.skip(n + 1);
        lemma_split_lines_pieces(rest);
        assert forall|i: int| 0 <= i < split_lines(s).len() implies newline_free(
            #[trigger] split_lines(s)[i],
        ) by {
            if i > 0 {
                assert(split_lines(s)[i] == split_lines(rest)[i - 1]);
            }
        }
    } else {
        assert(s.take(n) == s);
    }
}

/// Round trip: the lines of a text, joined with line feeds, are the text. Said of what is
/// written out: the written lines, joined with line feeds, and one more line feed exactly when
/// the text ends in one, are the text.
pub proof fn lemma_lines_round_trip(s: Seq<char>)
    ensures
        join_lines(lines_of(s)) == s,
        join_lines(split_lines(s)) == s,
        s.len() > 0 && s.last() == '\n' ==> join_lines(written_lines(s)) + seq!['\n'] == s,
        !(s.len() > 0 && s.last() == '\n') ==> join_lines(written_lines(s)) == s,
{
    lemma_join_split(s);
    lemma_split_lines_pieces(s);
    lemma_last_line_empty(s);
    if s.len() > 0 {
        let lines = split_lines(s);
        if lines.last().len() == 0 {
            lemma_join_drop_empty_last(lines);
        }
    }
}

/// Joining the pieces of a text gives back the text.
pub proof fn lemma_join_split(s: Seq<char>)
    ensures
        join_lines(split_lines(s)) == s,
    decreases s.len(),
{
    lemma_first_newline(s);
    let n = first_newline(s);
    if n < s.len() {
        let rest = s.skip(n + 1);
        lemma_join_split(rest);
        lemma_split_lines_pieces(rest);
        let lines = split_lines(s);
        assert(lines.drop_first() == split_lines(rest));
        assert(s.take(n) + seq!['\n'] + rest == s);
    }
}

/// The last piece of a text is empty exactly when the text is empty or ends in a line feed.
pub proof fn lemma_last_line_empty(s: Seq<char>)
    ensures
        split_lines(s).last().len() == 0 <==> (s.len() == 0 || s.last() == '\n'),
    decreases s.len(),
{
    lemma_first_newline(s);
    lemma_split_lines_pieces(s);
    let n = first_newline(s);
    if n < s.len() {
        let rest = s.skip(n + 1);
        lemma_last_line_empty(rest);
        lemma_split_lines_pieces(rest);
        assert(split_lines(s).last() == split_lines(rest).last());
        if rest.len() > 0 {
            assert(rest.last() == s.last());
        }
    } else {
        assert(s.take(n) == s);
        if s.len() > 0 {
            assert(s.take(n)[s.len() - 1] != '\n');
        }
    }
}

/// Whether `text` does not end in a line feed; the empty text does not.
pub open spec fn ends_without_newline(text: Seq<char>) -> bool {
    text.len() == 0 || text.last() != '\n'
}

/// Whether `text` ends in one line feed and no more.
pub open spec fn ends_in_one_newline(text: Seq<char>) -> bool {
    text.len() > 0 && text.last() == '\n' && ends_without_newline(text.drop_last())
}

/// A line feed at the end of a text adds one empty piece after the pieces of the text.
pub proof fn lemma_split_lines_fed(s: Seq<char>)
    ensures
        split_lines(s.push('\n')) == split_lines(s).push(Seq::empty()),
    decreases s.len(),
{
    lemma_first_newline(s);
    let n = first_newline(s);
    let fed = s.push('\n');
    assert(fed.take(n) == s.take(n));
    lemma_first_newline_is(fed, n);
    if n < s.len() {
        let rest = s.skip(n + 1);
        lemma_split_lines_fed(rest);
        assert(fed.skip(n + 1) == rest.push('\n'));
        assert(seq![s.take(n)] + split_lines(rest).push(Seq::empty()) == (seq![s.take(n)]
            + split_lines(rest)).push(Seq::empty()));
    } else {
        assert(s.take(n) == s);
        assert(fed.skip(n + 1) == Seq::<char>::empty());
        assert(split_lines(Seq::<char>::empty()) == seq![Seq::<char>::empty()]);
        assert(seq![s] + seq![Seq::<char>::empty()] == seq![s].push(Seq::empty()));
    }
}

/// Splitting is the inverse of joining: lines without line feeds, at least one of them, are the
/// pieces of their join.
pub proof fn lemma_split_join(lines: Seq<Seq<char>>)
    requires
        lines.len() >= 1,
        forall|i: int| 0 <= i < lines.len() ==> newline_free(#[trigger] lines[i]),
    ensures
        split_lines(join_lines(lines)) == lines,
    decreases lines.len(),
{
    let s = join_lines(lines);
    if lines.len() == 1 {
        assert(s.take(s.len() as int) == s);
        lemma_first_newline_is(s, s.len() as int);
    } else {
        let tail = lines.drop_first();
        assert forall|i: int| 0 <= i < tail.len() implies newline_free(#[trigger] tail[i]) by {
            assert(tail[i] == lines[i + 1]);
        }
        lemma_split_join(tail);
        let n = lines[0].len() as int;
        assert(s.take(n) == lines[0]);
        assert(s.skip(n + 1) == join_lines(tail));
        lemma_first_newline_is(s, n);
        assert(split_lines(s) == seq![lines[0]] + tail);
    }
}

proof fn lemma_join_drop_empty_last(lines: Seq<Seq<char>>)
    requires
        lines.len() >= 1,
        lines.last().len() == 0,
    ensures
        lines.len() == 1 ==> join_lines(lines) == Seq::<char>::empty(),
        lines.len() > 1 ==> join_lines(lines) == join_lines(lines.drop_last()) + seq!['\n'],
    decreases lines.len(),
{
    if lines.len() == 1 {
        assert(lines[0] == Seq::<char>::empty());
    } else if lines.len() == 2 {
        assert(lines.drop_first().len() == 1);
        assert(lines.drop_first()[0] == lines.last());
        assert(lines.drop_last().len() == 1);
        assert(join_lines(lines.drop_first()) == Seq::<char>::empty());
        assert(join_lines(lines) == lines[0] + seq!['\n'] + Seq::<char>::empty());
    } else {
        let tail = lines.drop_first();
        assert(tail.last() == lines.last());
        lemma_join_drop_empty_last(tail);
        assert(lines.drop_last().drop_first() == tail.drop_last());
        assert(lines.drop_last()[0] == lines[0]);
    }
}

/// A text whose UTF-8 encoding holds no byte 10 holds no line feed.
proof fn lemma_newline_free_bytes(chars: Seq<char>)
    requires
        forall|j: int| 0 <= j < encode_utf8(chars).len() ==> encode_utf8(chars)[j] != 10u8,
    ensures
        newline_free(chars),
    decreases chars.len(),
{
    if chars.len() > 0 {
        let head = encode_scalar(chars[0] as u32);
        let rest = chars.drop_first();
        let bytes = encode_utf8(chars);
        assert(bytes == head + encode_utf8(rest));
        if chars[0] == '\n' {
            assert(leading_byte_width_1(10u32) == 10u8) by (bit_vector);
            assert(bytes[0] == 10u8);
        }
        assert forall|j: int| 0 <= j < encode_utf8(rest).len() implies encode_utf8(rest)[j]
            != 10u8 by {
            assert(encode_utf8(rest)[j] == bytes[head.len() + j]);
        }
        lemma_newline_free_bytes(rest);
        assert forall|i: int| 0 <= i < chars.len() implies chars[i] != '\n' by {
            if i > 0 {
                assert(chars[i] == rest[i - 1]);
            }
        }
    }
}

/// A text whose UTF-8 encoding starts with the byte 10 starts with a line feed, which that byte
/// alone encodes.
proof fn lemma_newline_first_byte(chars: Seq<char>)
    requires
        encode_utf8(chars).len() > 0,
        encode_utf8(chars)[0] == 10u8,
    ensures
        chars.len() > 0,
        chars[0] == '\n',
        is_char_boundary(encode_utf8(chars), 1),
{
    let bytes = encode_utf8(chars);
    encode_utf8_valid_utf8(chars);
    encode_utf8_first_scalar(chars);
    assert(is_leading_byte_width_1(10u8) && codepoint_width_1(10u8) == 10u32) by (bit_vector);
    char_u32_cast(chars[0], 10u32);
    reveal_with_fuel(is_char_boundary, 2);
}

/// The lines of a text, handed out one by one.
pub struct LinesWithLastFlag<'a> {
    rest: &'a str,
    more: bool,
}

impl<'a> LinesWithLastFlag<'a> {
    /// The lines not yet handed out.
    pub closed spec fn remaining(&self) -> Seq<Seq<char>> {
        if self.more {
            split_lines(self.rest@)
        } else {
            Seq::empty()
        }
    }

    /// Hands out the next line, if there is one, with the flag that says whether it is the
    /// last.
    pub fn next_line(&mut self) -> (r: Option<(&'a str, bool)>)
        ensures
            old(self).remaining().len() == 0 ==> r is None && final(self).remaining() == old(self).remaining(),
            old(self).remaining().len() > 0 ==> final(self).remaining() == old(self).remaining().drop_first(),
            old(self).remaining().len() > 0 ==> match r {
                Some((line, last)) => line@ == old(self).remaining()[0] && last == (old(self).remaining().len() == 1),
                None => false,
            },
    {
        if !self.more {
            return None;
        }
        let text = self.rest;
        let bytes = text.as_bytes();
        let mut i: usize = 0;
        while i < bytes.len() && bytes[i] != 10u8
            invariant
                i <= bytes@.len(),
                forall|j: int| 0 <= j < i ==> bytes@[j] != 10u8,
            decreases bytes@.len() - i,
        {
            i += 1;
        }
        proof {
            encode_utf8_valid_utf8(text@);
            if i < bytes@.len() {
                let b = bytes@[i as int];
                assert(!is_continuation_byte(b)) by (bit_vector)
                    requires
                        b == 10u8,
                ;
                is_char_boundary_iff_not_is_continuation_byte(bytes@, i as int);
            } else {
                is_char_boundary_start_end_of_seq(bytes@);
            }
        }
        let (line, tail) = text.split_at(i);
        proof {
            decode_utf8_split(bytes@, i as int);
            encode_utf8_decode_utf8(text@);
            encode_utf8_decode_utf8(line@);
            encode_utf8_decode_utf8(tail@);
            assert(text@ == line@ + tail@);
            lemma_newline_free_bytes(line@);
            assert(text@.take(line@.len() as int) == line@);
            lemma_split_lines_pieces(text@);
        }
        if i == bytes.len() {
            proof {
                assert(tail@.len() == 0) by {
                    if tail@.len() > 0 {
                        encode_utf8_first_scalar(tail@);
                    }
                }
                assert(text@ == line@);
                lemma_first_newline_is(text@, text@.len() as int);
            }
            self.more = false;
            Some((line, true))
        } else {
            proof {
                lemma_newline_first_byte(tail@);
                assert(text@[line@.len() as int] == tail@[0]);
                lemma_first_newline_is(text@, line@.len() as int);
            }
            let (feed, rest) = tail.split_at(1);
            proof {
                encode_utf8_valid_utf8(tail@);
                decode_utf8_split(encode_utf8(tail@), 1);
                encode_utf8_decode_utf8(feed@);
                encode_utf8_decode_utf8(rest@);
                assert(tail@ == feed@ + rest@);
                assert(feed@.len() == 1) by {
                    lemma_newline_first_byte(feed@);
                    if feed@.len() > 1 {
                        let more = feed@.drop_first();
                        assert(encode_utf8(feed@) == encode_scalar(feed@[0] as u32) + encode_utf8(
                            more,
                        ));
                        assert(leading_byte_width_1(10u32) == 10u8) by (bit_vector);
                        encode_utf8_first_scalar(more);
                    }
                }
                assert(rest@ == text@.skip(line@.len() as int + 1));
                lemma_split_lines_pieces(rest@);
                assert(split_lines(text@).drop_first() == split_lines(rest@));
            }
            self.rest = rest;
            Some((line, false))
        }
    }
}

/// Starts handing out the lines of `s`.
pub fn lines_with_last_line_flag<'a>(s: &'a str) -> (r: LinesWithLastFlag<'a>)
    ensures
        r.remaining() == lines_of(s@),
{
    LinesWithLastFlag { rest: s, more: !s.is_empty() }
}

} // verus!
