//! Text: trimming, searching, decimal numbers.

use vstd::prelude::*;

verus! {

/// The characters with the Unicode property White_Space.
pub open spec fn is_white_space(c: char) -> bool {
    let n = c as int;
    ||| 0x9 <= n <= 0xd
    ||| n == 0x20
    ||| n == 0x85
    ||| n == 0xa0
    ||| n == 0x1680
    ||| 0x2000 <= n <= 0x200a
    ||| n == 0x2028
    ||| n == 0x2029
    ||| n == 0x202f
    ||| n == 0x205f
    ||| n == 0x3000
}

/// `s` without its leading and trailing white space.
pub open spec fn trimmed(s: Seq<char>) -> Seq<char>
    decreases s.len(),
{
    if s.len() > 0 && is_white_space(s[0]) {
        trimmed(s.skip(1))
    } else if s.len() > 0 && is_white_space(s.last()) {
        trimmed(s.drop_last())
    } else {
        s
    }
}

/// `str::trim` removes the leading and trailing characters that have the Unicode property
/// White_Space.
pub assume_specification[ str::trim ](s: &str) -> (r: &str)
    ensures
        r@ == trimmed(s@),
;

/// `String::push` appends the character at the end.
pub assume_specification[ String::push ](s: &mut String, c: char)
    ensures
        final(s)@ == old(s)@.push(c),
;

/// What `str::to_lowercase` makes of a text: its lower case in the sense of Unicode.
pub uninterp spec fn lowercase(s: Seq<char>) -> Seq<char>;

/// The character in lower case if it is one of the ASCII letters `A` to `Z`, else itself.
pub open spec fn ascii_lower(c: char) -> char {
    if 'A' <= c <= 'Z' {
        ((c as int) + 32) as char
    } else {
        c
    }
}

/// The text with its ASCII letters `A` to `Z` in lower case.
pub open spec fn ascii_lowered(s: Seq<char>) -> Seq<char> {
    s.map_values(|c: char| ascii_lower(c))
}

/// A CJK unified ideograph. Ideographs have no case.
pub open spec fn is_ideograph(c: char) -> bool {
    0x4e00 <= c as int <= 0x9fff
}

/// Nothing but ASCII characters and ideographs.
pub open spec fn is_plain(s: Seq<char>) -> bool {
    forall|i: int| 0 <= i < s.len() ==> (#[trigger] s[i]) as int <= 0x7f || is_ideograph(s[i])
}

/// `str::to_lowercase` depends on the text alone. Of a text of ASCII characters and ideographs it
/// lowers the letters `A` to `Z` and keeps the rest. How other characters are mapped is not stated.
pub assume_specification[ str::to_lowercase ](s: &str) -> (r: String)
    ensures
        r@ == lowercase(s@),
        is_plain(s@) ==> r@ == ascii_lowered(s@),
;

/// The characters of a text.
pub fn chars_of(s: &str) -> (v: Vec<char>)
    ensures
        v@ == s@,
{
    let mut v: Vec<char> = Vec::new();
    for c in it: s.chars()
        invariant
            v@ == it.seq().take(it.index() as int),
            it.seq() == s@,
    {
        v.push(c);
    }
    v
}

/// `needle` stands in `text` at position `i`.
pub open spec fn occurs_at(text: Seq<char>, needle: Seq<char>, i: int) -> bool {
    &&& 0 <= i
    &&& i + needle.len() <= text.len()
    &&& text.subrange(i, i + needle.len()) == needle
}

/// `needle` stands somewhere in `text`.
pub open spec fn holds(text: Seq<char>, needle: Seq<char>) -> bool {
    exists|i: int| occurs_at(text, needle, i)
}

/// `i` is the first position at which `needle` stands in `text`.
pub open spec fn is_first(text: Seq<char>, needle: Seq<char>, i: int) -> bool {
    &&& occurs_at(text, needle, i)
    &&& forall|j: int| 0 <= j < i ==> !occurs_at(text, needle, j)
}

/// The first position at which `needle` stands in `text`.
pub open spec fn first_position(text: Seq<char>, needle: Seq<char>) -> Option<int> {
    if exists|i: int| is_first(text, needle, i) {
        Some(choose|i: int| is_first(text, needle, i))
    } else {
        None
    }
}

/// The first position is the only one that satisfies [`is_first`].
pub proof fn lemma_first_position(text: Seq<char>, needle: Seq<char>, i: int)
    requires
        is_first(text, needle, i),
    ensures
        first_position(text, needle) == Some(i),
{
    let k = choose|k: int| is_first(text, needle, k);
    assert(is_first(text, needle, k));
    if k < i {
        assert(!occurs_at(text, needle, k));
    } else if i < k {
        assert(!occurs_at(text, needle, i));
    }
}

/// Whether `needle` stands in `text` at position `i`.
fn occurs(text: &Vec<char>, needle: &Vec<char>, i: usize) -> (b: bool)
    requires
        i + needle.len() <= text.len(),
    ensures
        b == occurs_at(text@, needle@, i as int),
{
    let mut j: usize = 0;
    while j < needle.len()
        invariant
            j <= needle.len(),
            i + needle.len() <= text.len(),
            forall|k: int| 0 <= k < j ==> text@[i + k] == needle@[k],
        decreases needle.len() - j,
    {
        if text[i + j] != needle[j] {
            assert(text@.subrange(i as int, i + needle@.len())[j as int] != needle@[j as int]);
            return false;
        }
        j += 1;
    }
    assert(text@.subrange(i as int, i + needle@.len()) == needle@);
    true
}

/// The first position of `needle` in `text`, counted in characters.
pub fn find(text: &Vec<char>, needle: &str) -> (r: Option<usize>)
    ensures
        r is None <==> !holds(text@, needle@),
        r is None ==> first_position(text@, needle@) is None,
        r matches Some(i) ==> is_first(text@, needle@, i as int),
        r matches Some(i) ==> first_position(text@, needle@) == Some(i as int),
{
    let pattern = chars_of(needle);
    let mut i: usize = 0;
    if text.len() < pattern.len() {
        return None;
    }
    let last: usize = text.len() - pattern.len();
    loop
        invariant
            i <= last,
            pattern@ == needle@,
            last == text.len() - pattern.len(),
            forall|k: int| 0 <= k < i ==> !occurs_at(text@, needle@, k),
        decreases last - i,
    {
        if occurs(text, &pattern, i) {
            proof {
                lemma_first_position(text@, needle@, i as int);
            }
            return Some(i);
        }
        if i == last {
            return None;
        }
        i += 1;
    }
}

/// Whether `needle` stands somewhere in `text`.
pub fn contains(text: &Vec<char>, needle: &str) -> (b: bool)
    ensures
        b == holds(text@, needle@),
{
    find(text, needle).is_some()
}

/// A decimal digit.
pub open spec fn is_digit(c: char) -> bool {
    '0' <= c <= '9'
}

/// The value of a decimal digit.
pub open spec fn digit_value(c: char) -> int {
    (c as int) - ('0' as int)
}

/// The decimal digit of value `d`.
pub open spec fn digit(d: nat) -> char {
    (('0' as int) + d) as char
}

/// Nothing but decimal digits.
pub open spec fn all_digits(s: Seq<char>) -> bool {
    forall|i: int| 0 <= i < s.len() ==> is_digit(#[trigger] s[i])
}

/// The number that a sequence of decimal digits writes.
pub open spec fn decimal_value(s: Seq<char>) -> int
    decreases s.len(),
{
    if s.len() == 0 {
        0
    } else {
        decimal_value(s.drop_last()) * 10 + digit_value(s.last())
    }
}

/// A number in decimal notation, without leading zeros.
pub open spec fn decimal(n: nat) -> Seq<char>
    decreases n,
{
    if n < 10 {
        seq![digit(n)]
    } else {
        decimal(n / 10).push(digit(n % 10))
    }
}

/// Decimal notation consists of digits, writes the number, and has no needless leading zero.
pub proof fn lemma_decimal(n: nat)
    ensures
        decimal(n).len() > 0,
        all_digits(decimal(n)),
        decimal_value(decimal(n)) == n,
        n > 0 ==> decimal(n)[0] != '0',
        n == 0 ==> decimal(n) == seq!['0'],
    decreases n,
{
    if n < 10 {
        reveal_with_fuel(decimal_value, 2);
        assert(decimal(n).drop_last() == Seq::<char>::empty());
    } else {
        lemma_decimal(n / 10);
        assert(decimal(n).drop_last() == decimal(n / 10));
    }
}

/// Two numbers with the same decimal notation are equal.
pub proof fn lemma_decimal_injective(m: nat, n: nat)
    requires
        decimal(m) == decimal(n),
    ensures
        m == n,
{
    lemma_decimal(m);
    lemma_decimal(n);
}

/// A longer sequence of digits writes no smaller number.
proof fn lemma_decimal_value_prefix(s: Seq<char>, i: int)
    requires
        all_digits(s),
        0 <= i <= s.len(),
    ensures
        0 <= decimal_value(s.take(i)) <= decimal_value(s),
    decreases s.len(),
{
    if i == s.len() {
        assert(s.take(i) == s);
        if s.len() > 0 {
            lemma_decimal_value_prefix(s.drop_last(), i - 1);
            assert(is_digit(s[s.len() - 1]));
        }
    } else {
        assert(s.take(i) == s.drop_last().take(i));
        assert(is_digit(s[s.len() - 1]));
        lemma_decimal_value_prefix(s.drop_last(), i);
    }
}

/// The digit of value `d` as a character.
fn digit_char(d: u64) -> (c: char)
    requires
        d < 10,
    ensures
        c == digit(d as nat),
{
    (48u8 + (d as u8)) as char
}

/// The number in decimal notation.
pub fn decimal_text(n: u64) -> (s: String)
    ensures
        s@ == decimal(n as nat),
    decreases n,
{
    if n < 10 {
        let mut s = String::new();
        s.push(digit_char(n));
        s
    } else {
        let mut s = decimal_text(n / 10);
        s.push(digit_char(n % 10));
        s
    }
}

/// The number that a text writes: an optional `+`, then one or more digits, of a value that fits.
pub open spec fn number_u32(s: Seq<char>) -> Option<u32> {
    let digits = if s.len() > 0 && s[0] == '+' { s.skip(1) } else { s };
    if digits.len() > 0 && all_digits(digits) && decimal_value(digits) <= u32::MAX {
        Some(decimal_value(digits) as u32)
    } else {
        None
    }
}

/// Reads the characters from `start` to before `end` as a number.
pub fn parse_u32(text: &Vec<char>, start: usize, end: usize) -> (r: Option<u32>)
    requires
        start <= end <= text.len(),
    ensures
        r == number_u32(text@.subrange(start as int, end as int)),
{
    let ghost whole = text@.subrange(start as int, end as int);
    let from: usize = if start < end && text[start] == '+' { start + 1 } else { start };
    let ghost digits = if whole.len() > 0 && whole[0] == '+' { whole.skip(1) } else { whole };
    assert(digits == text@.subrange(from as int, end as int));
    if from == end {
        return None;
    }
    let mut value: u32 = 0;
    let mut i: usize = from;
    while i < end
        invariant
            from <= i <= end <= text.len(),
            digits == text@.subrange(from as int, end as int),
            all_digits(digits.take(i - from)),
            value == decimal_value(digits.take(i - from)),
            number_u32(whole) == (if digits.len() > 0 && all_digits(digits) && decimal_value(
                digits,
            ) <= u32::MAX {
                Some(decimal_value(digits) as u32)
            } else {
                None
            }),
            whole == text@.subrange(start as int, end as int),
        decreases end - i,
    {
        let c = text[i];
        assert(c == digits[i - from]);
        if c < '0' || '9' < c {
            return None;
        }
        let d: u32 = (c as u32) - 48;
        let wide: u64 = (value as u64) * 10 + (d as u64);
        assert(digits.take(i + 1 - from).drop_last() == digits.take(i - from));
        assert(wide == decimal_value(digits.take(i + 1 - from)));
        if wide > 4294967295 {
            proof {
                if all_digits(digits) {
                    lemma_decimal_value_prefix(digits, i + 1 - from);
                }
            }
            return None;
        }
        value = wide as u32;
        i += 1;
    }
    assert(digits.take(end - from) == digits);
    Some(value)
}

/// The digits of `s` from `i` on end at `j`.
pub open spec fn run_ends(s: Seq<char>, i: int, j: int) -> bool {
    &&& 0 <= i <= j <= s.len()
    &&& all_digits(s.subrange(i, j))
    &&& j < s.len() ==> !is_digit(s[j])
}

/// A run of digits has one end.
pub proof fn lemma_run_ends(s: Seq<char>, i: int, j: int, k: int)
    requires
        run_ends(s, i, j),
        run_ends(s, i, k),
    ensures
        j == k,
{
    if j < k {
        assert(s.subrange(i, k)[j - i] == s[j]);
        assert(is_digit(s[j]));
    } else if k < j {
        assert(s.subrange(i, j)[k - i] == s[k]);
        assert(is_digit(s[k]));
    }
}

/// What is left of a text when it is trimmed neither starts nor ends with white space.
pub proof fn law_trimmed_ends(s: Seq<char>)
    ensures
        trimmed(s).len() <= s.len(),
        trimmed(s).len() > 0 ==> !is_white_space(trimmed(s)[0]) && !is_white_space(
            trimmed(s).last(),
        ),
    decreases s.len(),
{
    if s.len() > 0 && is_white_space(s[0]) {
        law_trimmed_ends(s.skip(1));
    } else if s.len() > 0 && is_white_space(s.last()) {
        law_trimmed_ends(s.drop_last());
    }
}

/// To trim twice is to trim once.
pub proof fn law_trimmed_idempotent(s: Seq<char>)
    ensures
        trimmed(trimmed(s)) == trimmed(s),
{
    law_trimmed_ends(s);
}

/// White space: tabulators, line and page ends, blanks of any width, and the no-break blank.
pub proof fn law_white_space(c: char)
    ensures
        is_white_space(c) <==> {
            ||| c == '\t' || c == '\n' || c == '\u{b}' || c == '\u{c}' || c == '\r' || c == ' '
            ||| c == '\u{85}' || c == '\u{a0}' || c == '\u{1680}'
            ||| '\u{2000}' <= c <= '\u{200a}'
            ||| c == '\u{2028}' || c == '\u{2029}' || c == '\u{202f}' || c == '\u{205f}' || c == '\u{3000}'
        },
{
}

/// Where what is left of a text when it is trimmed starts and ends in it.
proof fn lemma_trimmed_bounds(s: Seq<char>) -> (r: (int, int))
    ensures
        0 <= r.0 <= r.1 <= s.len(),
        trimmed(s) == s.subrange(r.0, r.1),
        forall|k: int| 0 <= k < r.0 ==> is_white_space(#[trigger] s[k]),
        forall|k: int| r.1 <= k < s.len() ==> is_white_space(#[trigger] s[k]),
    decreases s.len(),
{
    if s.len() > 0 && is_white_space(s[0]) {
        let rest = s.skip(1);
        let (i, j) = lemma_trimmed_bounds(rest);
        assert(rest.subrange(i, j) == s.subrange(i + 1, j + 1));
        assert forall|k: int| 0 <= k < i + 1 implies is_white_space(#[trigger] s[k]) by {
            if k > 0 {
                assert(rest[k - 1] == s[k]);
            }
        }
        assert forall|k: int| j + 1 <= k < s.len() implies is_white_space(#[trigger] s[k]) by {
            assert(rest[k - 1] == s[k]);
        }
        (i + 1, j + 1)
    } else if s.len() > 0 && is_white_space(s.last()) {
        let rest = s.drop_last();
        let (i, j) = lemma_trimmed_bounds(rest);
        assert(rest.subrange(i, j) == s.subrange(i, j));
        assert forall|k: int| 0 <= k < i implies is_white_space(#[trigger] s[k]) by {
            assert(rest[k] == s[k]);
        }
        assert forall|k: int| j <= k < s.len() implies is_white_space(#[trigger] s[k]) by {
            if k < s.len() - 1 {
                assert(rest[k] == s[k]);
            }
        }
        (i, j)
    } else {
        assert(s.subrange(0, s.len() as int) == s);
        (0, s.len() as int)
    }
}

/// What is left of a text when it is trimmed is a part of it, with nothing but white space before
/// and behind.
pub proof fn law_trimmed_is_part(s: Seq<char>)
    ensures
        exists|i: int, j: int|
            {
                &&& 0 <= i <= j <= s.len()
                &&& trimmed(s) == #[trigger] s.subrange(i, j)
                &&& forall|k: int| 0 <= k < i || j <= k < s.len() ==> is_white_space(#[trigger] s[k])
            },
{
    let (i, j) = lemma_trimmed_bounds(s);
    assert(trimmed(s) == s.subrange(i, j));
}

/// White space round a text is lost when it is trimmed, and a text without any is kept.
pub proof fn law_trimmed_drops_white_space(before: Seq<char>, s: Seq<char>, after: Seq<char>)
    requires
        forall|k: int| 0 <= k < before.len() ==> is_white_space(#[trigger] before[k]),
        forall|k: int| 0 <= k < after.len() ==> is_white_space(#[trigger] after[k]),
        s.len() > 0 ==> !is_white_space(s[0]) && !is_white_space(s.last()),
    ensures
        trimmed(before + s + after) == s,
    decreases before.len() + after.len(),
{
    let whole = before + s + after;
    if before.len() > 0 {
        assert(whole[0] == before[0]);
        assert(whole.skip(1) == before.skip(1) + s + after);
        assert forall|k: int| 0 <= k < before.skip(1).len() implies is_white_space(
            #[trigger] before.skip(1)[k],
        ) by {
            assert(before.skip(1)[k] == before[k + 1]);
        }
        law_trimmed_drops_white_space(before.skip(1), s, after);
    } else if s.len() == 0 {
        if after.len() > 0 {
            assert(whole[0] == after[0]);
            assert(whole.skip(1) == before + s + after.skip(1));
            assert forall|k: int| 0 <= k < after.skip(1).len() implies is_white_space(
                #[trigger] after.skip(1)[k],
            ) by {
                assert(after.skip(1)[k] == after[k + 1]);
            }
            law_trimmed_drops_white_space(before, s, after.skip(1));
        } else {
            assert(whole == s);
        }
    } else if after.len() > 0 {
        assert(whole[0] == s[0]);
        assert(whole.last() == after[after.len() - 1]);
        assert(whole.drop_last() == before + s + after.drop_last());
        assert forall|k: int| 0 <= k < after.drop_last().len() implies is_white_space(
            #[trigger] after.drop_last()[k],
        ) by {
            assert(after.drop_last()[k] == after[k]);
        }
        law_trimmed_drops_white_space(before, s, after.drop_last());
    } else {
        assert(whole == s);
    }
}

/// The ASCII letters `A` to `Z` are lowered by 32 places, every other character is kept, and each in
/// its place.
pub proof fn law_ascii_lowered(s: Seq<char>)
    ensures
        ascii_lowered(s).len() == s.len(),
        forall|i: int| 0 <= i < s.len() && 65 <= (#[trigger] s[i]) as int <= 90 ==> ascii_lowered(s)[i] as int == s[i] as int + 32,
        forall|i: int| 0 <= i < s.len() && !(65 <= (#[trigger] s[i]) as int <= 90) ==> ascii_lowered(s)[i] == s[i],
{
}

/// A text is plain exactly if each of its characters is an ASCII one or an ideograph.
pub proof fn law_plain(s: Seq<char>)
    ensures
        is_plain(s) <==> forall|i: int|
            0 <= i < s.len() ==> (#[trigger] s[i]) <= '\u{7f}' || '\u{4e00}' <= s[i] <= '\u{9fff}',
{
}

/// A text stands in another exactly if there are texts to put before and behind it that make the
/// other.
pub proof fn law_holds(text: Seq<char>, needle: Seq<char>)
    ensures
        holds(text, needle) <==> exists|before: Seq<char>, after: Seq<char>|
            text == #[trigger] (before + needle + after),
{
    if holds(text, needle) {
        let i = choose|i: int| occurs_at(text, needle, i);
        let before = text.take(i);
        let after = text.skip(i + needle.len());
        assert(text == before + text.subrange(i, i + needle.len()) + after);
        assert(text == before + needle + after);
    }
    if exists|before: Seq<char>, after: Seq<char>| text == #[trigger] (before + needle + after) {
        let (before, after) = choose|before: Seq<char>, after: Seq<char>|
            text == #[trigger] (before + needle + after);
        let i = before.len() as int;
        assert(text.subrange(i, i + needle.len()) == needle);
        assert(occurs_at(text, needle, i));
    }
}

/// Where a text stands in another, it has a first position there.
proof fn lemma_first_exists(text: Seq<char>, needle: Seq<char>, i: int)
    requires
        occurs_at(text, needle, i),
    ensures
        exists|k: int| is_first(text, needle, k),
    decreases i,
{
    if exists|j: int| 0 <= j < i && occurs_at(text, needle, j) {
        let j = choose|j: int| 0 <= j < i && occurs_at(text, needle, j);
        lemma_first_exists(text, needle, j);
    } else {
        assert(is_first(text, needle, i));
    }
}

/// A text has a first position in another exactly if it stands there. It stands at that position,
/// and nowhere before.
pub proof fn law_first_position(text: Seq<char>, needle: Seq<char>)
    ensures
        first_position(text, needle) is Some <==> holds(text, needle),
        first_position(text, needle) matches Some(i) ==> {
            &&& 0 <= i <= i + needle.len() <= text.len()
            &&& text == text.take(i) + needle + text.skip(i + needle.len())
            &&& forall|before: Seq<char>, after: Seq<char>|
                text == #[trigger] (before + needle + after) ==> i <= before.len()
        },
{
    if holds(text, needle) {
        let k = choose|k: int| occurs_at(text, needle, k);
        lemma_first_exists(text, needle, k);
        let i = choose|i: int| is_first(text, needle, i);
        lemma_first_position(text, needle, i);
        assert(text == text.take(i) + text.subrange(i, i + needle.len()) + text.skip(
            i + needle.len(),
        ));
        assert forall|before: Seq<char>, after: Seq<char>|
            text == #[trigger] (before + needle + after) implies i <= before.len() by {
            let j = before.len() as int;
            assert(text.subrange(j, j + needle.len()) == needle);
            assert(occurs_at(text, needle, j));
        }
    } else {
        assert(forall|i: int| !is_first(text, needle, i)) by {
            assert forall|i: int| !is_first(text, needle, i) by {
                assert(!occurs_at(text, needle, i));
            }
        }
    }
}

/// A number below ten is written with one digit, any other like its tenth, with one digit behind.
/// The digits are in the order of their values, from `0` on.
pub proof fn law_decimal(n: nat, d: nat)
    requires
        d < 10,
    ensures
        decimal(d).len() == 1,
        decimal(d)[0] as int == 48 + d,
        n > 0 ==> decimal(n * 10 + d) == decimal(n) + decimal(d),
{
    if n > 0 {
        assert((n * 10 + d) / 10 == n);
        assert((n * 10 + d) % 10 == d);
        assert(decimal(n * 10 + d) == decimal(n) + decimal(d));
    }
}

/// One more digit makes ten times the value and the digit.
pub proof fn law_decimal_value(s: Seq<char>, c: char)
    ensures
        decimal_value(Seq::<char>::empty()) == 0,
        decimal_value(s.push(c)) == 10 * decimal_value(s) + (c as int - 48),
{
    assert(s.push(c).drop_last() == s);
}

/// A number is read back from its decimal notation, with or without a sign before it and zeros.
pub proof fn law_number_is_read_back(n: u32, zeros: nat)
    ensures
        ({
            let digits = Seq::new(zeros, |i: int| '0') + decimal(n as nat);
            &&& number_u32(digits) == Some(n)
            &&& number_u32(seq!['+'] + digits) == Some(n)
        }),
    decreases zeros,
{
    let padding = Seq::new(zeros, |i: int| '0');
    let digits = padding + decimal(n as nat);
    lemma_decimal(n as nat);
    lemma_padding(zeros, decimal(n as nat));
    assert forall|i: int| 0 <= i < digits.len() implies is_digit(#[trigger] digits[i]) by {
        if i >= zeros {
            assert(digits[i] == decimal(n as nat)[i - zeros]);
        }
    }
    assert(is_digit(digits[0]));
    assert((seq!['+'] + digits).skip(1) == digits);
}

/// Zeros before digits do not change their value.
proof fn lemma_padding(zeros: nat, s: Seq<char>)
    ensures
        decimal_value(Seq::new(zeros, |i: int| '0') + s) == decimal_value(s),
    decreases s.len(), zeros,
{
    let padding = Seq::new(zeros, |i: int| '0');
    if s.len() > 0 {
        assert((padding + s).drop_last() == padding + s.drop_last());
        lemma_padding(zeros, s.drop_last());
    } else if zeros > 0 {
        let less = Seq::new((zeros - 1) as nat, |i: int| '0');
        assert((padding + s).drop_last() == less + s);
        lemma_padding((zeros - 1) as nat, s);
    } else {
        assert(padding + s == s);
    }
}

/// What is read as a number without a sign are one or more digits, and it is their value.
pub proof fn law_number_is_digits(s: Seq<char>, n: u32)
    requires
        number_u32(s) == Some(n),
        s[0] != '+',
    ensures
        s.len() > 0,
        forall|i: int| 0 <= i < s.len() ==> 48 <= (#[trigger] s[i]) as int <= 57,
        decimal_value(s) == n,
{
    lemma_decimal_value_prefix(s, 0);
    assert forall|i: int| 0 <= i < s.len() implies 48 <= (#[trigger] s[i]) as int <= 57 by {
        assert(is_digit(s[i]));
    }
}

/// A sign before a text changes nothing in the number that is read, and a second is refused.
pub proof fn law_number_with_sign(s: Seq<char>)
    ensures
        s.len() == 0 || s[0] != '+' ==> number_u32(seq!['+'] + s) == number_u32(s),
        s.len() > 0 && s[0] == '+' ==> number_u32(seq!['+'] + s) is None,
        number_u32(Seq::<char>::empty()) is None,
{
    assert((seq!['+'] + s).skip(1) == s);
    if s.len() > 0 && s[0] == '+' {
        assert(!is_digit(s[0]));
    }
}

} // verus!
