//! Text helpers: comparison, search, number reading and writing.
use vstd::prelude::*;

verus! {

/// `String::push` puts one character behind the text it already holds.
pub assume_specification[ String::push ](s: &mut String, c: char)
    ensures
        final(s)@ == old(s)@.push(c),
;

/// The characters that Unicode gives the `White_Space` property.
pub open spec fn white_space(c: char) -> bool {
    ||| '\u{9}' <= c <= '\u{d}'
    ||| c == ' '
    ||| c == '\u{85}'
    ||| c == '\u{a0}'
    ||| c == '\u{1680}'
    ||| '\u{2000}' <= c <= '\u{200a}'
    ||| c == '\u{2028}'
    ||| c == '\u{2029}'
    ||| c == '\u{202f}'
    ||| c == '\u{205f}'
    ||| c == '\u{3000}'
}

/// `char::is_whitespace` tells whether a character has the `White_Space`
/// property.
pub assume_specification[ char::is_whitespace ](c: char) -> (white: bool)
    ensures
        white == white_space(c),
;

/// Whether a text has no character but white space.
pub open spec fn blank(s: Seq<char>) -> bool {
    forall|i: int| 0 <= i < s.len() ==> white_space(#[trigger] s[i])
}

/// Whether `needle` stands somewhere in `hay`.
pub open spec fn occurs(needle: Seq<char>, hay: Seq<char>) -> bool {
    exists|i: int| #[trigger] occurs_at(needle, hay, i)
}

/// Whether `needle` stands in `hay` from position `i` on.
pub open spec fn occurs_at(needle: Seq<char>, hay: Seq<char>, i: int) -> bool {
    &&& 0 <= i
    &&& i + needle.len() <= hay.len()
    &&& hay.subrange(i, i + needle.len()) == needle
}

/// The characters of a text, in order.
pub fn chars_of(s: &str) -> (chars: Vec<char>)
    ensures
        chars@ == s@,
{
    let mut chars: Vec<char> = Vec::new();
    for c in it: s.chars()
        invariant
            it.seq() == s@,
            chars@ == s@.take(it.index() as int),
    {
        chars.push(c);
    }
    chars
}

/// Whether two texts are the same.
pub fn same_text(a: &str, b: &str) -> (same: bool)
    ensures
        same == (a@ == b@),
{
    a.to_owned() == b.to_owned()
}

/// Whether a text has no character but white space.
pub fn is_blank(s: &str) -> (yes: bool)
    ensures
        yes == blank(s@),
{
    for c in it: s.chars()
        invariant
            it.seq() == s@,
            forall|i: int| 0 <= i < it.index() ==> white_space(#[trigger] s@[i]),
    {
        if !c.is_whitespace() {
            assert(!white_space(s@[it.index() as int]));
            return false;
        }
    }
    true
}

/// Whether `needle` stands in `hay` from position `at` on.
fn stands_at(needle: &Vec<char>, hay: &Vec<char>, at: usize) -> (yes: bool)
    requires
        at + needle@.len() <= hay@.len(),
    ensures
        yes == occurs_at(needle@, hay@, at as int),
{
    let hay_len: usize = hay.len();
    let mut k: usize = 0;
    while k < needle.len()
        invariant
            k <= needle@.len(),
            hay_len == hay@.len(),
            at + needle@.len() <= hay@.len(),
            forall|j: int| 0 <= j < k ==> hay@[at + j] == #[trigger] needle@[j],
        decreases needle@.len() - k,
    {
        if hay[at + k] != needle[k] {
            assert(hay@.subrange(at as int, at + needle@.len())[k as int] != needle@[k as int]);
            return false;
        }
        k = k + 1;
    }
    assert(hay@.subrange(at as int, at + needle@.len()) =~= needle@);
    true
}

/// Whether `needle` stands somewhere in `hay`.
pub fn contains(hay: &str, needle: &str) -> (found: bool)
    ensures
        found == occurs(needle@, hay@),
{
    let h = chars_of(hay);
    let n = chars_of(needle);
    if n.len() > h.len() {
        return false;
    }
    let last: usize = h.len() - n.len();
    let mut i: usize = 0;
    while i <= last
        invariant
            h@ == hay@,
            n@ == needle@,
            last + n@.len() == h@.len(),
            i <= last + 1,
            forall|j: int| 0 <= j < i ==> !#[trigger] occurs_at(needle@, hay@, j),
        decreases last + 1 - i,
    {
        if stands_at(&n, &h, i) {
            return true;
        }
        if i == last {
            return false;
        }
        i = i + 1;
    }
    false
}

/// A capital ASCII letter made small; any other character as it is.
pub open spec fn ascii_lower(c: char) -> char {
    if 'A' <= c <= 'Z' {
        (c as u32 + 32) as char
    } else {
        c
    }
}

/// Whether every character of a text is ASCII.
pub open spec fn all_ascii(s: Seq<char>) -> bool {
    forall|i: int| 0 <= i < s.len() ==> (#[trigger] s[i]) <= '\u{7f}'
}

/// What `str::to_lowercase` makes of a text.
pub uninterp spec fn lowercase_of(s: Seq<char>) -> Seq<char>;

/// `str::to_lowercase` gives the Unicode lower case of a text, a function of
/// the text alone. Of an ASCII text it makes the capital letters small and
/// keeps everything else. A line end stays as it is and ends every word, so that
/// the texts before and behind it are made small each for itself.
pub assume_specification[ str::to_lowercase ](s: &str) -> (lower: String)
    ensures
        lower@ == lowercase_of(s@),
        all_ascii(s@) ==> lower@ == s@.map_values(|c: char| ascii_lower(c)),
        forall|a: Seq<char>, b: Seq<char>|
            s@ == #[trigger] with_line_end_between(a, b) ==> lower@ == with_line_end_between(
                lowercase_of(a),
                lowercase_of(b),
            ),
;

/// Two texts with a line end between them.
pub open spec fn with_line_end_between(a: Seq<char>, b: Seq<char>) -> Seq<char> {
    a + seq!['\n'] + b
}

/// The value of a decimal digit.
pub open spec fn digit_value(c: char) -> int {
    c as int - '0' as int
}

/// Whether a text consists of decimal digits.
pub open spec fn all_digits(s: Seq<char>) -> bool {
    forall|i: int| 0 <= i < s.len() ==> '0' <= #[trigger] s[i] <= '9'
}

/// The number that a run of decimal digits stands for.
pub open spec fn digits_value(s: Seq<char>) -> int
    decreases s.len(),
{
    if s.len() == 0 {
        0
    } else {
        digits_value(s.drop_last()) * 10 + digit_value(s.last())
    }
}

/// What stands behind an optional sign.
pub open spec fn unsigned_part(s: Seq<char>) -> Seq<char> {
    if s.len() > 0 && (s[0] == '-' || s[0] == '+') {
        s.skip(1)
    } else {
        s
    }
}

/// The number that a text stands for: an optional sign, then one or more
/// digits and nothing else, within the range of `i64`.
pub open spec fn i64_value(s: Seq<char>) -> Option<int> {
    let digits = unsigned_part(s);
    let value = if s.len() > 0 && s[0] == '-' {
        -digits_value(digits)
    } else {
        digits_value(digits)
    };
    if digits.len() > 0 && all_digits(digits) && i64::MIN <= value <= i64::MAX {
        Some(value)
    } else {
        None
    }
}

/// Reads a whole number with an optional sign, as `str::parse::<i64>` does.
pub fn parse_i64(s: &str) -> (value: Option<i64>)
    ensures
        match value {
            Some(v) => i64_value(s@) == Some(v as int),
            None => i64_value(s@) is None,
        },
{
    let chars = chars_of(s);
    let negative: bool = chars.len() > 0 && chars[0] == '-';
    let signed: bool = chars.len() > 0 && (chars[0] == '-' || chars[0] == '+');
    let start: usize = if signed { 1 } else { 0 };
    if start == chars.len() {
        return None;
    }
    let ghost digits = unsigned_part(s@);
    let limit: i128 = 0x8000_0000_0000_0000i128;
    let mut magnitude: i128 = 0;
    let mut too_large: bool = false;
    let mut i: usize = start;
    assert(digits.take(0) =~= Seq::<char>::empty());
    while i < chars.len()
        invariant
            chars@ == s@,
            digits == s@.skip(start as int),
            digits == unsigned_part(s@),
            start <= i <= chars@.len(),
            limit == 0x8000_0000_0000_0000i128,
            all_digits(digits.take(i - start)),
            !too_large ==> 0 <= magnitude <= limit && magnitude == digits_value(digits.take(i - start)),
            too_large ==> digits_value(digits.take(i - start)) > limit,
        decreases chars@.len() - i,
    {
        let c = chars[i];
        proof {
            assert(c == digits[i - start]);
            assert(digits.take(i + 1 - start).drop_last() =~= digits.take(i - start));
            assert(digits.take(i + 1 - start).last() == c);
        }
        if !('0' <= c && c <= '9') {
            assert(!all_digits(digits));
            return None;
        }
        proof {
            assert forall|j: int| 0 <= j < i + 1 - start implies '0' <= #[trigger] digits.take(i + 1 - start)[j] <= '9' by {
                if j < i - start {
                    assert(digits.take(i - start)[j] == digits.take(i + 1 - start)[j]);
                }
            }
        }
        if !too_large {
            magnitude = magnitude * 10 + (c as u32 - '0' as u32) as i128;
            if magnitude > limit {
                too_large = true;
            }
        }
        i = i + 1;
    }
    assert(digits.take(i - start) =~= digits);
    if too_large {
        None
    } else if negative {
        Some((-magnitude) as i64)
    } else if magnitude < limit {
        Some(magnitude as i64)
    } else {
        None
    }
}

/// The decimal digit for a number below ten.
pub open spec fn digit_char(d: nat) -> char {
    ('0' as nat + d) as char
}

/// A number written in decimal digits, without leading zeros.
pub open spec fn decimal(n: nat) -> Seq<char>
    decreases n,
{
    if n < 10 {
        seq![digit_char(n)]
    } else {
        decimal(n / 10).push(digit_char(n % 10))
    }
}

/// Writes a number in decimal digits.
pub fn decimal_text(n: usize) -> (text: String)
    ensures
        text@ == decimal(n as nat),
    decreases n,
{
    let mut text = if n < 10 {
        String::new()
    } else {
        decimal_text(n / 10)
    };
    let c = ('0' as u8 + (n % 10) as u8) as char;
    text.push(c);
    text
}

/// Whether text `a` comes before or equals text `b`, character by character.
pub open spec fn text_le(a: Seq<char>, b: Seq<char>) -> bool
    decreases a.len(),
{
    if a.len() == 0 {
        true
    } else if b.len() == 0 {
        false
    } else if a[0] == b[0] {
        text_le(a.skip(1), b.skip(1))
    } else {
        a[0] < b[0]
    }
}

/// Of any two texts one comes before or equals the other.
pub proof fn law_text_order_is_total(a: Seq<char>, b: Seq<char>)
    ensures
        text_le(a, b) || text_le(b, a),
    decreases a.len(),
{
    if a.len() > 0 && b.len() > 0 && a[0] == b[0] {
        law_text_order_is_total(a.skip(1), b.skip(1));
    }
}

/// The order of texts carries over from one pair to the next.
pub proof fn law_text_order_is_transitive(a: Seq<char>, b: Seq<char>, c: Seq<char>)
    requires
        text_le(a, b),
        text_le(b, c),
    ensures
        text_le(a, c),
    decreases a.len(),
{
    if a.len() > 0 && a[0] == b[0] && b[0] == c[0] {
        law_text_order_is_transitive(a.skip(1), b.skip(1), c.skip(1));
    }
}

/// Texts that come before or equal each other are the same.
pub proof fn law_text_order_is_antisymmetric(a: Seq<char>, b: Seq<char>)
    requires
        text_le(a, b),
        text_le(b, a),
    ensures
        a == b,
    decreases a.len(),
{
    if a.len() > 0 && b.len() > 0 {
        law_text_order_is_antisymmetric(a.skip(1), b.skip(1));
        assert(a =~= seq![a[0]] + a.skip(1));
        assert(b =~= seq![b[0]] + b.skip(1));
    } else {
        assert(a =~= b);
    }
}

/// What two texts have in common at their front does not matter for their order;
/// so the paths of files in one directory are in the order of their names.
pub proof fn law_common_front_does_not_matter(front: Seq<char>, a: Seq<char>, b: Seq<char>)
    ensures
        text_le(front + a, front + b) == text_le(a, b),
    decreases front.len(),
{
    if front.len() == 0 {
        assert(front + a =~= a);
        assert(front + b =~= b);
    } else {
        assert((front + a).skip(1) =~= front.skip(1) + a);
        assert((front + b).skip(1) =~= front.skip(1) + b);
        law_common_front_does_not_matter(front.skip(1), a, b);
    }
}

/// Compares two texts character by character.
pub fn comes_before_or_equals(a: &str, b: &str) -> (yes: bool)
    ensures
        yes == text_le(a@, b@),
{
    let x = chars_of(a);
    let y = chars_of(b);
    let mut i: usize = 0;
    assert(x@.skip(0) =~= x@);
    assert(y@.skip(0) =~= y@);
    while i < x.len() && i < y.len()
        invariant
            x@ == a@,
            y@ == b@,
            i <= x@.len(),
            i <= y@.len(),
            text_le(a@, b@) == text_le(x@.skip(i as int), y@.skip(i as int)),
        decreases x@.len() - i,
    {
        if x[i] != y[i] {
            return x[i] < y[i];
        }
        assert(x@.skip(i as int).skip(1) =~= x@.skip(i + 1));
        assert(y@.skip(i as int).skip(1) =~= y@.skip(i + 1));
        i = i + 1;
    }
    i == x.len()
}

/// The views of a list of texts.
pub open spec fn views(list: Seq<String>) -> Seq<Seq<char>> {
    list.map_values(|s: String| s@)
}

/// The view of an optional text.
pub open spec fn opt_view(text: Option<String>) -> Option<Seq<char>> {
    match text {
        Some(s) => Some(s@),
        None => None,
    }
}

/// Copies a list of texts.
pub fn copy_texts(list: &Vec<String>) -> (copy: Vec<String>)
    ensures
        views(copy@) == views(list@),
{
    let mut copy: Vec<String> = Vec::new();
    let mut i: usize = 0;
    while i < list.len()
        invariant
            i <= list@.len(),
            copy@ == list@.take(i as int),
        decreases list@.len() - i,
    {
        copy.push(list[i].clone());
        i = i + 1;
        assert(copy@ =~= list@.take(i as int));
    }
    assert(copy@ =~= list@);
    copy
}

/// Copies an optional text.
pub fn copy_option(value: &Option<String>) -> (copy: Option<String>)
    ensures
        opt_view(copy) == opt_view(*value),
{
    match value {
        Some(s) => Some(s.clone()),
        None => None,
    }
}

/// The texts of a list, with single spaces between them.
pub open spec fn spaced(list: Seq<Seq<char>>) -> Seq<char>
    decreases list.len(),
{
    if list.len() == 0 {
        Seq::empty()
    } else if list.len() == 1 {
        list[0]
    } else {
        spaced(list.drop_last()) + seq![' '] + list.last()
    }
}

/// Joins the texts of a list with single spaces.
pub fn join_with_spaces(list: &Vec<String>) -> (joined: String)
    ensures
        joined@ == spaced(views(list@)),
{
    let mut joined = String::new();
    let mut i: usize = 0;
    while i < list.len()
        invariant
            i <= list@.len(),
            joined@ == spaced(views(list@).take(i as int)),
        decreases list@.len() - i,
    {
        if i > 0 {
            joined.push(' ');
        }
        joined.append(list[i].as_str());
        proof {
            let now = views(list@).take(i + 1);
            assert(now.drop_last() =~= views(list@).take(i as int));
            assert(now.last() == list@[i as int]@);
            if i == 0 {
                assert(joined@ =~= now[0]);
            } else {
                assert(joined@ =~= spaced(now.drop_last()) + seq![' '] + now.last());
            }
        }
        i = i + 1;
    }
    assert(views(list@).take(i as int) =~= views(list@));
    joined
}

/// Whether a list holds a text.
pub fn list_has(list: &Vec<String>, wanted: &str) -> (found: bool)
    ensures
        found == views(list@).contains(wanted@),
{
    let mut i: usize = 0;
    while i < list.len()
        invariant
            i <= list@.len(),
            forall|j: int| 0 <= j < i ==> #[trigger] views(list@)[j] != wanted@,
        decreases list@.len() - i,
    {
        if same_text(list[i].as_str(), wanted) {
            assert(views(list@)[i as int] == wanted@);
            return true;
        }
        i = i + 1;
    }
    false
}

/// A text is blank part by part, and character by character.
pub proof fn law_blank_is_judged_by_the_characters(a: Seq<char>, b: Seq<char>, c: char)
    ensures
        blank(Seq::empty()),
        blank(seq![c]) == white_space(c),
        blank(a + b) == (blank(a) && blank(b)),
{
    assert(blank(seq![c]) ==> white_space(seq![c][0]));
    if blank(a + b) {
        assert forall|i: int| 0 <= i < a.len() implies white_space(#[trigger] a[i]) by {
            assert((a + b)[i] == a[i]);
        }
        assert forall|i: int| 0 <= i < b.len() implies white_space(#[trigger] b[i]) by {
            assert((a + b)[a.len() + i] == b[i]);
        }
    }
}

/// A text stands in another exactly where the other is made of something, the
/// text, and something more.
pub proof fn law_found_text_is_a_part(needle: Seq<char>, hay: Seq<char>)
    ensures
        occurs(needle, hay) <==> exists|front: Seq<char>, back: Seq<char>| hay == #[trigger] (front + needle + back),
{
    if occurs(needle, hay) {
        let i = choose|i: int| #[trigger] occurs_at(needle, hay, i);
        let front = hay.take(i);
        let back = hay.skip(i + needle.len());
        assert(hay =~= front + needle + back);
    }
    if exists|front: Seq<char>, back: Seq<char>| hay == #[trigger] (front + needle + back) {
        let (front, back) = choose|front: Seq<char>, back: Seq<char>| hay == #[trigger] (front + needle + back);
        let i = front.len() as int;
        assert(hay.subrange(i, i + needle.len()) =~= needle);
        assert(occurs_at(needle, hay, i));
    }
}

/// Making a character small moves exactly the 26 capital ASCII letters, each by
/// the same distance, onto the small ones.
pub proof fn law_small_letters(c: char)
    ensures
        65 <= c as int <= 90 ==> ascii_lower(c) as int == c as int + 32,
        !(65 <= c as int <= 90) ==> ascii_lower(c) == c,
{
}

/// One more digit behind a number makes it ten times as large and adds the digit.
pub proof fn law_one_more_digit(s: Seq<char>, d: char)
    ensures
        digits_value(Seq::empty()) == 0,
        digits_value(s.push(d)) == 10 * digits_value(s) + (d as int - 48),
{
    assert(s.push(d).drop_last() =~= s);
}

/// Zeros in front of a number do not change it.
proof fn lemma_leading_zero(s: Seq<char>)
    ensures
        digits_value(seq!['0'] + s) == digits_value(s),
    decreases s.len(),
{
    reveal_with_fuel(digits_value, 3);
    if s.len() == 0 {
        assert((seq!['0'] + s).drop_last() =~= Seq::<char>::empty());
        assert((seq!['0'] + s).last() == '0');
    } else {
        assert((seq!['0'] + s).drop_last() =~= seq!['0'] + s.drop_last());
        assert((seq!['0'] + s).last() == s.last());
        lemma_leading_zero(s.drop_last());
    }
}

/// A number that is written is read back, with or without a sign and with any
/// zero in front, as far as it is in range; and it is written without a needless
/// zero.
pub proof fn law_written_number_is_read_back(n: nat)
    ensures
        decimal(n).len() > 0,
        decimal(n).len() > 1 ==> decimal(n)[0] != '0',
        n <= 0x7fff_ffff_ffff_ffff ==> {
            &&& i64_value(decimal(n)) == Some(n as int)
            &&& i64_value(seq!['+'] + decimal(n)) == Some(n as int)
            &&& i64_value(seq!['0'] + decimal(n)) == Some(n as int)
        },
        n <= 0x8000_0000_0000_0000 ==> i64_value(seq!['-'] + decimal(n)) == Some(-(n as int)),
        n > 0x7fff_ffff_ffff_ffff ==> i64_value(decimal(n)) is None,
        n > 0x8000_0000_0000_0000 ==> i64_value(seq!['-'] + decimal(n)) is None,
{
    lemma_decimal(n);
    let d = decimal(n);
    assert(unsigned_part(d) =~= d);
    assert((seq!['+'] + d).skip(1) =~= d);
    assert((seq!['-'] + d).skip(1) =~= d);
    lemma_leading_zero(d);
    let z = seq!['0'] + d;
    assert(unsigned_part(z) =~= z);
    assert forall|i: int| 0 <= i < z.len() implies '0' <= #[trigger] z[i] <= '9' by {
        if i > 0 {
            assert(z[i] == d[i - 1]);
        }
    }
}

/// What writing a number gives.
proof fn lemma_decimal(n: nat)
    ensures
        decimal(n).len() > 0,
        all_digits(decimal(n)),
        digits_value(decimal(n)) == n,
        decimal(n)[0] == '0' ==> n == 0,
    decreases n,
{
    let d = decimal(n);
    if n < 10 {
        reveal_with_fuel(digits_value, 2);
        assert(d.drop_last() =~= Seq::<char>::empty());
    } else {
        lemma_decimal(n / 10);
        assert(d.drop_last() =~= decimal(n / 10));
        assert(d[0] == decimal(n / 10)[0]);
        assert forall|i: int| 0 <= i < d.len() implies '0' <= #[trigger] d[i] <= '9' by {
            if i < d.len() - 1 {
                assert(d[i] == decimal(n / 10)[i]);
            }
        }
    }
}

/// Nothing is read as a number that has another character than digits behind at
/// most one sign, or no digit.
pub proof fn law_only_numbers_are_read(s: Seq<char>)
    requires
        i64_value(s) is Some,
    ensures
        s.len() > 0,
        s[0] == '+' || s[0] == '-' ==> s.len() > 1,
        s[0] == '+' || s[0] == '-' || 48 <= s[0] as int <= 57,
        forall|i: int| 1 <= i < s.len() ==> 48 <= (#[trigger] s[i]) as int <= 57,
        -0x8000_0000_0000_0000 <= i64_value(s)->0 <= 0x7fff_ffff_ffff_ffff,
{
    let digits = unsigned_part(s);
    if s.len() > 0 {
        if s[0] == '+' || s[0] == '-' {
            assert forall|i: int| 1 <= i < s.len() implies 48 <= (#[trigger] s[i]) as int <= 57 by {
                assert(s.skip(1)[i - 1] == s[i]);
            }
        } else {
            assert(digits == s);
        }
    }
}

/// Lists that are joined with spaces can be joined piece by piece.
pub proof fn law_joining_piece_by_piece(a: Seq<Seq<char>>, b: Seq<Seq<char>>, word: Seq<char>)
    ensures
        spaced(Seq::empty()) == Seq::<char>::empty(),
        spaced(seq![word]) == word,
        a.len() > 0 && b.len() > 0 ==> spaced(a + b) == spaced(a) + seq![' '] + spaced(b),
    decreases b.len(),
{
    if a.len() > 0 && b.len() > 0 {
        assert((a + b).drop_last() =~= a + b.drop_last());
        assert((a + b).last() == b.last());
        if b.len() == 1 {
            assert(a + b.drop_last() =~= a);
        } else {
            law_joining_piece_by_piece(a, b.drop_last(), word);
            assert(spaced(a + b) =~= spaced(a) + seq![' '] + spaced(b));
        }
    }
}

/// Two texts are in the order of the first characters in which they differ; a
/// text comes before what continues it.
pub proof fn law_first_difference_decides(front: Seq<char>, x: char, a: Seq<char>, y: char, b: Seq<char>)
    ensures
        x != y ==> text_le(front + (seq![x] + a), front + (seq![y] + b)) == (x < y),
        text_le(front, front + b),
        a.len() > 0 ==> !text_le(front + a, front),
{
    law_common_front_does_not_matter(front, seq![x] + a, seq![y] + b);
    law_common_front_does_not_matter(front, Seq::empty(), b);
    law_common_front_does_not_matter(front, a, Seq::empty());
    assert(front + Seq::<char>::empty() =~= front);
    assert((seq![x] + a)[0] == x);
    assert((seq![y] + b)[0] == y);
}

/// Every run of digits is read, however many zeros it starts with, as far as its
/// number is in range: with a minus sign in front it stands for the negative
/// number, with a plus sign for the same as without.
pub proof fn law_every_run_of_digits_is_read(s: Seq<char>)
    requires
        s.len() > 0,
        forall|i: int| 0 <= i < s.len() ==> 48 <= (#[trigger] s[i]) as int <= 57,
    ensures
        i64_value(s) == if digits_value(s) <= 0x7fff_ffff_ffff_ffff {
            Some(digits_value(s))
        } else {
            None
        },
        i64_value(seq!['+'] + s) == i64_value(s),
        i64_value(seq!['-'] + s) == if digits_value(s) <= 0x8000_0000_0000_0000 {
            Some(-digits_value(s))
        } else {
            None
        },
{
    lemma_digits_are_not_negative(s);
    assert(unsigned_part(s) =~= s);
    assert((seq!['+'] + s).skip(1) =~= s);
    assert((seq!['-'] + s).skip(1) =~= s);
}

/// Digits stand for no negative number.
proof fn lemma_digits_are_not_negative(s: Seq<char>)
    requires
        all_digits(s),
    ensures
        digits_value(s) >= 0,
    decreases s.len(),
{
    if s.len() > 0 {
        assert forall|i: int| 0 <= i < s.drop_last().len() implies '0' <= #[trigger] s.drop_last()[i] <= '9' by {
            assert(s.drop_last()[i] == s[i]);
        }
        lemma_digits_are_not_negative(s.drop_last());
        assert('0' <= s[s.len() - 1] <= '9');
    }
}

/// Writing a number gives digits alone, which stand for that number.
pub proof fn law_written_number_stands_for_itself(n: nat)
    ensures
        digits_value(decimal(n)) == n,
        forall|i: int| 0 <= i < decimal(n).len() ==> 48 <= (#[trigger] decimal(n)[i]) as int <= 57,
{
    lemma_decimal(n);
    assert(all_digits(decimal(n)));
}

} // verus!
