//! The terminal text that the window shows while a command runs.
use crate::text;
use vstd::prelude::*;
use vstd::utf8::*;

verus! {

/// The size in bytes from which the text is shortened.
pub const TERMINAL_LIMIT: usize = 20_000;

/// About how many bytes a shortened text keeps.
pub const TERMINAL_KEPT: usize = 10_000;

/// Whether a text ends with a line end.
pub open spec fn line_ended(s: Seq<char>) -> bool {
    s.len() > 0 && s.last() == '\n'
}

/// Whether a text ends with a line end.
pub fn ends_line(buffer: &str) -> (yes: bool)
    ensures
        yes == line_ended(buffer@),
{
    let chars = text::chars_of(buffer);
    chars.len() > 0 && chars[chars.len() - 1] == '\n'
}

/// A run of dots.
pub open spec fn dots_text(count: nat) -> Seq<char> {
    Seq::new(count, |i: int| '.')
}

/// How many dots come after some: one, two, three, and one again.
pub open spec fn dots_after(count: u32) -> u32 {
    (count % 3 + 1) as u32
}

/// One beat of the progress display: a text whose last line is open is shown
/// with one to three dots behind it, and a text that ends a line is left alone.
/// The second result is the number of dots from then on.
pub fn tick(buffer: &str, dots: u32) -> (beat: (Option<String>, u32))
    ensures
        if line_ended(buffer@) {
            beat.0 is None && beat.1 == dots
        } else {
            &&& beat.1 == dots_after(dots)
            &&& text::opt_view(beat.0) == Some(buffer@ + dots_text(dots_after(dots) as nat))
        },
{
    if ends_line(buffer) {
        return (None, dots);
    }
    let count: u32 = dots % 3 + 1;
    let mut shown = buffer.to_owned();
    let mut i: u32 = 0;
    assert(shown@ =~= buffer@ + dots_text(0));
    while i < count
        invariant
            i <= count,
            shown@ == buffer@ + dots_text(i as nat),
        decreases count - i,
    {
        shown.push('.');
        assert(shown@ =~= buffer@ + dots_text((i + 1) as nat));
        i = i + 1;
    }
    (Some(shown), count)
}

/// The place of the first line end at or behind a place, or the length of the
/// bytes where there is none.
pub open spec fn next_line_end(bytes: Seq<u8>, from: int) -> int
    decreases bytes.len() - from,
{
    if from >= bytes.len() {
        bytes.len() as int
    } else if bytes[from] == 10 {
        from
    } else {
        next_line_end(bytes, from + 1)
    }
}

/// Up to where the bytes of a text are dropped: not at all while they are few;
/// else so that the last ones are kept, from the start of a line if one starts
/// among them.
pub open spec fn dropped(bytes: Seq<u8>) -> int {
    let from = bytes.len() - TERMINAL_KEPT;
    if bytes.len() <= TERMINAL_LIMIT {
        0
    } else if next_line_end(bytes, from) < bytes.len() {
        next_line_end(bytes, from) + 1
    } else {
        from
    }
}

/// Whether a text can be shortened: the place from which the rest is searched
/// does not fall into the middle of a character.
pub open spec fn can_shorten(buffer: Seq<char>) -> bool {
    encode_utf8(buffer).len() > TERMINAL_LIMIT ==> is_char_boundary(
        encode_utf8(buffer),
        encode_utf8(buffer).len() - TERMINAL_KEPT,
    )
}

/// Whether a text can be shortened.
pub fn is_shortenable(buffer: &str) -> (yes: bool)
    ensures
        yes == can_shorten(buffer@),
{
    let len: usize = buffer.as_bytes().len();
    len <= TERMINAL_LIMIT || buffer.is_char_boundary(len - TERMINAL_KEPT)
}

/// Behind a character of one byte the next character starts.
proof fn lemma_boundary_after_one_byte(bytes: Seq<u8>, i: int)
    requires
        valid_utf8(bytes),
        0 <= i < bytes.len(),
        is_char_boundary(bytes, i),
        is_leading_byte_width_1(bytes[i]),
    ensures
        is_char_boundary(bytes, i + 1),
    decreases bytes.len(),
{
    let rest = pop_first_scalar(bytes);
    let width = length_of_first_scalar(bytes);
    if i > 0 {
        assert(is_char_boundary(rest, i - width));
        assert(i >= width);
        assert(rest[i - width] == bytes[i]);
        lemma_boundary_after_one_byte(rest, i - width);
        assert(i + 1 - width == (i - width) + 1);
    } else {
        assert(width == 1);
        assert(is_char_boundary(rest, 0));
    }
}

/// The rest of a text from a boundary on.
fn rest_from(buffer: &str, at: usize) -> (rest: String)
    requires
        is_char_boundary(encode_utf8(buffer@), at as int),
        0 <= at <= encode_utf8(buffer@).len(),
    ensures
        encode_utf8(rest@) == encode_utf8(buffer@).skip(at as int),
{
    let (_front, back) = buffer.split_at(at);
    assert(encode_utf8(back@) =~= encode_utf8(buffer@).skip(at as int));
    back.to_owned()
}

/// The text to keep of a terminal text, which drops its older lines when it
/// has grown too long.
pub fn shortened(buffer: &str) -> (kept: String)
    requires
        can_shorten(buffer@),
    ensures
        encode_utf8(kept@) == encode_utf8(buffer@).skip(dropped(encode_utf8(buffer@))),
{
    let bytes = buffer.as_bytes();
    let ghost all = encode_utf8(buffer@);
    if bytes.len() <= TERMINAL_LIMIT {
        assert(all.skip(0) =~= all);
        return buffer.to_owned();
    }
    let from: usize = bytes.len() - TERMINAL_KEPT;
    let mut i: usize = from;
    proof {
        encode_utf8_valid_utf8(buffer@);
    }
    while i < bytes.len()
        invariant
            bytes@ == all,
            all == encode_utf8(buffer@),
            valid_utf8(all),
            from == all.len() - TERMINAL_KEPT,
            all.len() > TERMINAL_LIMIT,
            from <= i <= all.len(),
            next_line_end(all, from as int) == next_line_end(all, i as int),
        decreases all.len() - i,
    {
        if bytes[i] == 10 {
            proof {
                is_char_boundary_iff_is_leading_byte(all, i as int);
                assert(is_leading_byte_width_1(all[i as int]));
                lemma_boundary_after_one_byte(all, i as int);
            }
            return rest_from(buffer, i + 1);
        }
        i = i + 1;
    }
    rest_from(buffer, from)
}

/// The text with its last line ended.
pub open spec fn with_line_end(s: Seq<char>) -> Seq<char> {
    if line_ended(s) {
        s
    } else {
        s.push('\n')
    }
}

/// Ends the last line of a terminal text.
pub fn end_line(buffer: String) -> (ended: String)
    ensures
        ended@ == with_line_end(buffer@),
{
    let mut ended = buffer;
    if !ends_line(ended.as_str()) {
        ended.push('\n');
    }
    ended
}

/// Shortening keeps at most the limit, and keeps a text that is not too long as
/// it is; what is kept is the end of the text.
pub proof fn law_shortened_text_is_a_short_end(bytes: Seq<u8>)
    ensures
        0 <= dropped(bytes) <= bytes.len(),
        bytes.len() <= TERMINAL_LIMIT ==> dropped(bytes) == 0,
        bytes.len() > TERMINAL_LIMIT ==> bytes.skip(dropped(bytes)).len() <= TERMINAL_KEPT,
        bytes.len() > TERMINAL_LIMIT && dropped(bytes) > bytes.len() - TERMINAL_KEPT
            ==> bytes[dropped(bytes) - 1] == 10,
{
    if bytes.len() > TERMINAL_LIMIT {
        lemma_next_line_end(bytes, bytes.len() - TERMINAL_KEPT);
    }
}

/// The next line end stands at or behind the place from which it is sought.
proof fn lemma_next_line_end(bytes: Seq<u8>, from: int)
    requires
        0 <= from <= bytes.len(),
    ensures
        from <= next_line_end(bytes, from) <= bytes.len(),
        next_line_end(bytes, from) < bytes.len() ==> bytes[next_line_end(bytes, from)] == 10,
    decreases bytes.len() - from,
{
    if from < bytes.len() && bytes[from] != 10 {
        lemma_next_line_end(bytes, from + 1);
    }
}

/// The dots go round in three: one, two, three and one again, wherever they
/// start.
pub proof fn law_dots_go_round(count: u32)
    ensures
        1 <= dots_after(count) <= 3,
        count % 3 == 0 ==> dots_after(count) == 1,
        count % 3 != 0 ==> dots_after(count) == count % 3 + 1,
        dots_after(dots_after(dots_after(dots_after(count)))) == dots_after(count),
        dots_after(dots_after(count)) != dots_after(count),
        dots_text(count as nat).len() == count,
        forall|i: int| 0 <= i < count ==> #[trigger] dots_text(count as nat)[i] == '.',
{
}

/// A text ends a line exactly where its last character is a line end; ending the
/// last line leaves such a text as it is, adds a line end to any other, and so
/// changes nothing the second time.
pub proof fn law_ending_a_line(s: Seq<char>, c: char)
    ensures
        !line_ended(Seq::empty()),
        line_ended(s.push(c)) <==> c == '\n',
        with_line_end(s.push('\n')) == s.push('\n'),
        c != '\n' ==> with_line_end(s.push(c)) == s.push(c).push('\n'),
        with_line_end(Seq::empty()) == seq!['\n'],
        with_line_end(with_line_end(s)) == with_line_end(s),
{
    assert(Seq::<char>::empty().push('\n') =~= seq!['\n']);
}

/// What is dropped of a text of more than 20,000 bytes: all but the last 10,000,
/// and of these everything up to and with their first line end, if they have one.
pub proof fn law_what_is_dropped(bytes: Seq<u8>, k: int)
    requires
        bytes.len() > 20_000,
    ensures
        dropped(bytes) >= bytes.len() - 10_000,
        bytes.len() - 10_000 <= k < dropped(bytes) - 1 ==> bytes[k] != 10,
        dropped(bytes) == bytes.len() - 10_000 && bytes.len() - 10_000 <= k < bytes.len() ==> bytes[k] != 10,
        dropped(bytes) > bytes.len() - 10_000 ==> bytes[dropped(bytes) - 1] == 10,
        dropped(bytes) <= bytes.len(),
{
    lemma_next_line_end(bytes, bytes.len() - 10_000);
    lemma_no_line_end_before(bytes, bytes.len() - 10_000, k);
}

/// No line end stands before the next one.
proof fn lemma_no_line_end_before(bytes: Seq<u8>, from: int, k: int)
    requires
        0 <= from <= bytes.len(),
    ensures
        from <= k < next_line_end(bytes, from) ==> bytes[k] != 10,
    decreases bytes.len() - from,
{
    if from < bytes.len() && bytes[from] != 10 {
        lemma_no_line_end_before(bytes, from + 1, k);
    }
}

/// Which texts can be shortened: all of up to 20,000 bytes, and of the longer ones
/// exactly those in which no character reaches across the place 10,000 bytes
/// before the end; so every text of ASCII characters.
pub proof fn law_which_texts_can_be_shortened(buffer: Seq<char>)
    ensures
        ({
            let bytes = encode_utf8(buffer);
            &&& bytes.len() <= 20_000 ==> can_shorten(buffer)
            &&& bytes.len() > 20_000 ==> (can_shorten(buffer) <==> is_char_boundary(bytes, bytes.len() - 10_000))
            &&& is_ascii_chars(buffer) ==> can_shorten(buffer)
        }),
{
    let bytes = encode_utf8(buffer);
    if is_ascii_chars(buffer) && bytes.len() > 20_000 {
        let at = bytes.len() - 10_000;
        is_ascii_chars_encode_utf8(buffer);
        encode_utf8_valid_utf8(buffer);
        is_char_boundary_iff_is_leading_byte(bytes, at);
        assert(bytes[at] == buffer[at] as u8);
        assert(is_leading_byte_width_1(bytes[at]));
    }
}

} // verus!
