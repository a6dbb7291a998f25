//! Texts: numbers in decimal, prefixes and suffixes, search, joining.
use vstd::prelude::*;

verus! {

broadcast use vstd::string::group_string_axioms;

/// The character of a decimal digit.
pub open spec fn digit(d: nat) -> char {
    (('0' as nat) + d) as char
}

/// A natural number in decimal, without leading zeros.
pub open spec fn decimal(n: nat) -> Seq<char>
    decreases n,
{
    if n < 10 {
        seq![digit(n)]
    } else {
        decimal(n / 10).push(digit(n % 10))
    }
}

/// An integer in decimal, with a minus sign where it is negative.
pub open spec fn signed_decimal(n: int) -> Seq<char> {
    if n < 0 {
        seq!['-'] + decimal((-n) as nat)
    } else {
        decimal(n as nat)
    }
}

/// `needle` stands in `hay` from position `at` on.
pub open spec fn occurs_at(hay: Seq<char>, needle: Seq<char>, at: int) -> bool {
    0 <= at && at + needle.len() <= hay.len() && hay.subrange(at, at + needle.len()) == needle
}

/// `needle` stands somewhere in `hay`.
pub open spec fn occurs_in(hay: Seq<char>, needle: Seq<char>) -> bool {
    exists|at: int| occurs_at(hay, needle, at)
}

pub open spec fn begins_with(text: Seq<char>, prefix: Seq<char>) -> bool {
    occurs_at(text, prefix, 0)
}

/// `text` without `suffix` where it ends with it, else `text` itself.
pub open spec fn without_suffix(text: Seq<char>, suffix: Seq<char>) -> Seq<char> {
    if occurs_at(text, suffix, text.len() - suffix.len()) {
        text.subrange(0, text.len() - suffix.len())
    } else {
        text
    }
}

/// The parts one after the other, with `separator` between each two.
pub open spec fn joined(parts: Seq<Seq<char>>, separator: Seq<char>) -> Seq<char>
    decreases parts.len(),
{
    if parts.len() == 0 {
        Seq::empty()
    } else if parts.len() == 1 {
        parts[0]
    } else {
        joined(parts.drop_last(), separator) + separator + parts.last()
    }
}

/// The contents of a vector of texts.
pub open spec fn views(texts: Seq<String>) -> Seq<Seq<char>> {
    texts.map_values(|t: String| t@)
}

/// The number that a row of decimal digits stands for.
pub open spec fn digits_value(text: Seq<char>) -> nat
    decreases text.len(),
{
    if text.len() == 0 {
        0
    } else {
        digits_value(text.drop_last()) * 10 + (text.last() as nat - '0' as nat) as nat
    }
}

pub open spec fn is_digit(c: char) -> bool {
    '0' as u32 <= c as u32 <= '9' as u32
}

/// The text without a plus sign at its front.
pub open spec fn without_plus(text: Seq<char>) -> Seq<char> {
    if text.len() > 0 && text[0] == '+' {
        text.drop_first()
    } else {
        text
    }
}

/// The number that a text stands for: one or more decimal digits, perhaps behind
/// a plus sign, that make a number of 64 bits.
pub open spec fn parsed_u64(text: Seq<char>) -> Option<u64> {
    let digits = without_plus(text);
    if digits.len() > 0 && (forall|i: int| 0 <= i < digits.len() ==> is_digit(#[trigger] digits[i]))
        && digits_value(digits) <= u64::MAX {
        Some(digits_value(digits) as u64)
    } else {
        None
    }
}

/// A longer row of digits stands for a number that is no smaller.
proof fn lemma_digits_value_grows(text: Seq<char>, n: int)
    requires
        0 <= n <= text.len(),
        forall|i: int| 0 <= i < text.len() ==> is_digit(#[trigger] text[i]),
    ensures
        digits_value(text.take(n)) <= digits_value(text),
    decreases text.len(),
{
    if n == text.len() {
        assert(text.take(n) =~= text);
    } else {
        let short = text.drop_last();
        assert(short.take(n) =~= text.take(n));
        assert forall|i: int| 0 <= i < short.len() implies is_digit(#[trigger] short[i]) by {
            assert(short[i] == text[i]);
        }
        lemma_digits_value_grows(short, n);
        assert(is_digit(text[text.len() - 1]));
    }
}

/// The number that a text stands for, where it stands for one.
pub fn parse_u64(text: &str) -> (r: Option<u64>)
    ensures
        r == parsed_u64(text@),
{
    let len: usize = text.unicode_len();
    let start: usize = if len > 0 && text.get_char(0) == '+' {
        1
    } else {
        0
    };
    let ghost digits = without_plus(text@);
    assert(digits =~= text@.skip(start as int));
    if start == len {
        return None;
    }
    let mut value: u64 = 0;
    let mut i: usize = start;
    assert(digits.take(0) =~= Seq::<char>::empty());
    while i < len
        invariant
            len == text@.len(),
            start <= i <= len,
            digits == text@.skip(start as int),
            forall|j: int| 0 <= j < i - start ==> is_digit(#[trigger] digits[j]),
            value == digits_value(digits.take(i - start)),
            digits == without_plus(text@),
        decreases len - i,
    {
        let c: char = text.get_char(i);
        assert(c == digits[i - start]);
        if (c as u32) < ('0' as u32) || (c as u32) > ('9' as u32) {
            assert(!is_digit(digits[i - start]));
            return None;
        }
        let d: u64 = ((c as u32) - ('0' as u32)) as u64;
        proof {
            let next = digits.take(i - start + 1);
            assert(next.drop_last() =~= digits.take(i - start));
            assert(next.last() == c);
            assert(digits_value(next) == value * 10 + d);
        }
        if value > (u64::MAX - d) / 10 {
            proof {
                assert(value * 10 + d > u64::MAX);
                if forall|j: int| 0 <= j < digits.len() ==> is_digit(#[trigger] digits[j]) {
                    lemma_digits_value_grows(digits, i - start + 1);
                }
            }
            return None;
        }
        value = value * 10 + d;
        i = i + 1;
    }
    assert(digits.take(i - start) =~= digits);
    Some(value)
}

fn digit_text(d: u64) -> (r: &'static str)
    requires
        d < 10,
    ensures
        r@ == seq![digit(d as nat)],
{
    proof {
        reveal_strlit("0");
        reveal_strlit("1");
        reveal_strlit("2");
        reveal_strlit("3");
        reveal_strlit("4");
        reveal_strlit("5");
        reveal_strlit("6");
        reveal_strlit("7");
        reveal_strlit("8");
        reveal_strlit("9");
    }
    if d == 0 {
        "0"
    } else if d == 1 {
        "1"
    } else if d == 2 {
        "2"
    } else if d == 3 {
        "3"
    } else if d == 4 {
        "4"
    } else if d == 5 {
        "5"
    } else if d == 6 {
        "6"
    } else if d == 7 {
        "7"
    } else if d == 8 {
        "8"
    } else {
        "9"
    }
}

/// The number in decimal.
pub fn decimal_text(n: u64) -> (r: String)
    ensures
        r@ == decimal(n as nat),
    decreases n,
{
    let last: &str = digit_text(n % 10);
    if n < 10 {
        last.to_owned()
    } else {
        let mut text: String = decimal_text(n / 10);
        text.append(last);
        proof {
            assert(text@ =~= decimal((n / 10) as nat).push(digit((n % 10) as nat)));
        }
        text
    }
}

/// The number in decimal, with a minus sign where it is negative.
pub fn signed_decimal_text(n: i64) -> (r: String)
    ensures
        r@ == signed_decimal(n as int),
{
    if n < 0 {
        let magnitude: u64 = (-(n as i128)) as u64;
        let mut text: String = "-".to_owned();
        let digits: String = decimal_text(magnitude);
        text.append(digits.as_str());
        proof {
            reveal_strlit("-");
            assert("-"@ =~= seq!['-']);
        }
        text
    } else {
        decimal_text(n as u64)
    }
}

/// Whether two texts are the same.
pub fn same_text(a: &str, b: &str) -> (r: bool)
    ensures
        r == (a@ == b@),
{
    let left: String = a.to_owned();
    let right: String = b.to_owned();
    left == right
}

/// Whether `needle` stands in `hay` from position `at` on.
fn stands_at(hay: &str, needle: &str, at: usize) -> (r: bool)
    requires
        at + needle@.len() <= hay@.len(),
    ensures
        r == occurs_at(hay@, needle@, at as int),
{
    let hay_len: usize = hay.unicode_len();
    let needle_len: usize = needle.unicode_len();
    assert(at + needle_len <= hay_len);
    let end: usize = at + needle_len;
    let part: &str = hay.substring_char(at, end);
    same_text(part, needle)
}

/// Whether `needle` stands somewhere in `hay`.
pub fn contains_text(hay: &str, needle: &str) -> (r: bool)
    ensures
        r == occurs_in(hay@, needle@),
{
    let hay_len: usize = hay.unicode_len();
    let needle_len: usize = needle.unicode_len();
    if needle_len > hay_len {
        return false;
    }
    let mut at: usize = 0;
    while at <= hay_len - needle_len
        invariant
            hay_len == hay@.len(),
            needle_len == needle@.len(),
            needle_len <= hay_len,
            at <= hay_len - needle_len + 1,
            forall|i: int| 0 <= i < at ==> !occurs_at(hay@, needle@, i),
        decreases hay_len - needle_len + 1 - at,
    {
        if stands_at(hay, needle, at) {
            return true;
        }
        if at == hay_len - needle_len {
            assert(forall|i: int| occurs_at(hay@, needle@, i) ==> 0 <= i <= hay_len - needle_len);
            return false;
        }
        at = at + 1;
    }
    false
}

/// Whether `text` begins with `prefix`.
pub fn has_prefix(text: &str, prefix: &str) -> (r: bool)
    ensures
        r == begins_with(text@, prefix@),
{
    if prefix.unicode_len() > text.unicode_len() {
        false
    } else {
        stands_at(text, prefix, 0)
    }
}

/// `text` without `suffix` where it ends with it, else `text` itself.
pub fn strip_suffix_text(text: &str, suffix: &str) -> (r: String)
    ensures
        r@ == without_suffix(text@, suffix@),
{
    let text_len: usize = text.unicode_len();
    let suffix_len: usize = suffix.unicode_len();
    if suffix_len <= text_len && stands_at(text, suffix, text_len - suffix_len) {
        text.substring_char(0, text_len - suffix_len).to_owned()
    } else {
        text.to_owned()
    }
}

/// The parts one after the other, with `separator` between each two.
pub fn join_texts(parts: &Vec<String>, separator: &str) -> (r: String)
    ensures
        r@ == joined(views(parts@), separator@),
{
    let ghost all = views(parts@);
    if parts.len() == 0 {
        return String::new();
    }
    let mut text: String = parts[0].clone();
    let mut i: usize = 1;
    assert(all.take(1).len() == 1);
    while i < parts.len()
        invariant
            1 <= i <= parts.len(),
            all == views(parts@),
            text@ == joined(all.take(i as int), separator@),
        decreases parts.len() - i,
    {
        text.append(separator);
        text.append(parts[i].as_str());
        proof {
            let next = all.take(i + 1);
            assert(next.drop_last() =~= all.take(i as int));
            assert(next.last() == parts@[i as int]@);
        }
        i = i + 1;
    }
    assert(all.take(i as int) =~= all);
    text
}

/// Three texts one after the other.
pub fn concat3(a: &str, b: &str, c: &str) -> (r: String)
    ensures
        r@ == a@ + b@ + c@,
{
    let mut text: String = a.to_owned();
    text.append(b);
    text.append(c);
    text
}

/// Two texts one after the other.
pub fn concat2(a: &str, b: &str) -> (r: String)
    ensures
        r@ == a@ + b@,
{
    let mut text: String = a.to_owned();
    text.append(b);
    text
}

/// The number of characters behind the first dot of a text, or none where it has no
/// dot: the decimal places of a number in digits.
pub open spec fn places(text: Seq<char>) -> nat
    decreases text.len(),
{
    if text.len() == 0 {
        0
    } else if text[0] == '.' {
        (text.len() - 1) as nat
    } else {
        places(text.skip(1))
    }
}

/// The decimal places of a number in digits.
pub fn decimal_places(text: &str) -> (r: usize)
    ensures
        r == places(text@),
{
    let len: usize = text.unicode_len();
    let mut i: usize = 0;
    assert(text@.skip(0) =~= text@);
    while i < len
        invariant
            i <= len,
            len == text@.len(),
            places(text@) == places(text@.skip(i as int)),
        decreases len - i,
    {
        let ghost rest = text@.skip(i as int);
        if text.get_char(i) == '.' {
            return len - i - 1;
        }
        assert(rest.skip(1) =~= text@.skip(i + 1));
        i = i + 1;
    }
    0
}

proof fn lemma_decimal_digits(n: nat)
    ensures
        decimal(n).len() > 0,
        forall|i: int| 0 <= i < decimal(n).len() ==> is_digit(#[trigger] decimal(n)[i]),
        digits_value(decimal(n)) == n,
        n > 0 ==> decimal(n)[0] != '0',
    decreases n,
{
    let text = decimal(n);
    if n < 10 {
        assert(text.drop_last() =~= Seq::<char>::empty());
        assert(digits_value(text.drop_last()) == 0);
        assert(text.last() == digit(n));
    } else {
        lemma_decimal_digits(n / 10);
        assert(text.drop_last() =~= decimal(n / 10));
        assert(text.last() == digit(n % 10));
        assert forall|i: int| 0 <= i < text.len() implies is_digit(#[trigger] text[i]) by {
            if i < text.len() - 1 {
                assert(text[i] == decimal(n / 10)[i]);
            }
        }
        assert(text[0] == decimal(n / 10)[0]);
    }
}

/// A number in decimal is made of digits alone, begins with a zero only where it is zero, and is
/// read back as the number.
pub proof fn law_a_decimal_is_read_back(n: u64)
    ensures
        parsed_u64(decimal(n as nat)) == Some(n),
        forall|i: int|
            0 <= i < decimal(n as nat).len() ==> '0' as u32 <= (#[trigger] decimal(n as nat)[i]) as u32
                <= '9' as u32,
        n > 0 ==> decimal(n as nat)[0] != '0',
{
    lemma_decimal_digits(n as nat);
    assert(is_digit(decimal(n as nat)[0]));
    assert(without_plus(decimal(n as nat)) == decimal(n as nat));
    assert forall|i: int| 0 <= i < decimal(n as nat).len() implies '0' as u32 <= (
    #[trigger] decimal(n as nat)[i]) as u32 <= '9' as u32 by {
        assert(is_digit(decimal(n as nat)[i]));
    }
}

/// A negative number is printed as a minus sign and the number without it, any other as itself.
pub proof fn law_a_negative_number_has_a_minus_sign(n: int)
    ensures
        n >= 0 ==> signed_decimal(n) == decimal(n as nat),
        n > 0 ==> signed_decimal(-n) == seq!['-'] + decimal(n as nat),
{
}

/// A plus sign at the front of a number changes nothing, and a text with anything but digits
/// behind it is no number, nor is an empty one.
pub proof fn law_what_is_read_as_a_number(text: Seq<char>, i: int)
    ensures
        parsed_u64(Seq::empty()) is None,
        parsed_u64(seq!['+']) is None,
        text.len() > 0 && text[0] != '+' ==> parsed_u64(seq!['+'] + text) == parsed_u64(text),
        0 <= i < text.len() && !(text[i] == '+' && i == 0) && !('0' as u32 <= text[i] as u32
            <= '9' as u32) ==> parsed_u64(text) is None,
{
    assert(without_plus(seq!['+']) =~= Seq::<char>::empty());
    assert((seq!['+'] + text).drop_first() =~= text);
    if 0 <= i < text.len() && !(text[i] == '+' && i == 0) && !('0' as u32 <= text[i] as u32
        <= '9' as u32) {
        let digits = without_plus(text);
        if text[0] == '+' {
            assert(digits[i - 1] == text[i]);
            assert(!is_digit(digits[i - 1]));
        } else {
            assert(!is_digit(digits[i]));
        }
    }
}

/// One more digit at the end of a number makes it ten times as large and adds the digit.
pub proof fn law_a_digit_more_is_ten_times_as_much(text: Seq<char>, d: nat)
    requires
        d < 10,
    ensures
        digits_value(text.push(digit(d))) == 10 * digits_value(text) + d,
        digits_value(Seq::empty()) == 0,
{
    assert(text.push(digit(d)).drop_last() =~= text);
    assert(text.push(digit(d)).last() == digit(d));
}

/// A text stands in whatever is made of something before it, the text and something behind it.
pub proof fn law_where_a_text_occurs(before: Seq<char>, needle: Seq<char>, behind: Seq<char>)
    ensures
        occurs_in(before + needle + behind, needle),
{
    let hay = before + needle + behind;
    assert(hay.subrange(before.len() as int, before.len() as int + needle.len()) =~= needle);
    assert(occurs_at(hay, needle, before.len() as int));
}

/// Where a text stands in another, that is something before it, the text and something behind it.
pub proof fn law_what_an_occurrence_is(hay: Seq<char>, needle: Seq<char>)
    requires
        occurs_in(hay, needle),
    ensures
        exists|before: Seq<char>, behind: Seq<char>| hay == #[trigger] (before + needle + behind),
{
    let at = choose|at: int| occurs_at(hay, needle, at);
    let before = hay.subrange(0, at);
    let behind = hay.subrange(at + needle.len(), hay.len() as int);
    assert(hay =~= before + needle + behind);
}

/// A text begins with another exactly where it is that and something behind it.
pub proof fn law_what_a_prefix_is(text: Seq<char>, prefix: Seq<char>, behind: Seq<char>)
    ensures
        begins_with(prefix + behind, prefix),
        begins_with(text, prefix) ==> text == prefix + text.skip(prefix.len() as int),
        begins_with(text, prefix) <==> prefix.len() <= text.len() && forall|i: int|
            0 <= i < prefix.len() ==> #[trigger] text[i] == prefix[i],
{
    assert((prefix + behind).subrange(0, prefix.len() as int) =~= prefix);
    if begins_with(text, prefix) {
        let front = text.subrange(0, prefix.len() as int);
        assert(front == prefix);
        assert(text =~= prefix + text.skip(prefix.len() as int)) by {
            assert(text =~= front + text.skip(prefix.len() as int));
        }
        assert forall|i: int| 0 <= i < prefix.len() implies #[trigger] text[i] == prefix[i] by {
            assert(front[i] == text[i]);
        }
    }
    if prefix.len() <= text.len() && (forall|i: int|
        0 <= i < prefix.len() ==> #[trigger] text[i] == prefix[i]) {
        assert(text.subrange(0, prefix.len() as int) =~= prefix);
    }
}

/// A suffix is taken off the end of a text once. A text that does not end with it stays as it is.
pub proof fn law_a_suffix_is_taken_off_the_end(text: Seq<char>, suffix: Seq<char>)
    ensures
        without_suffix(text + suffix, suffix) == text,
        without_suffix(text, suffix) == text || without_suffix(text, suffix) + suffix == text,
        suffix.len() > text.len() ==> without_suffix(text, suffix) == text,
{
    let whole = text + suffix;
    assert(whole.subrange(text.len() as int, whole.len() as int) =~= suffix);
    assert(whole.subrange(0, text.len() as int) =~= text);
    let cut = text.len() - suffix.len();
    if occurs_at(text, suffix, cut) {
        assert(text.subrange(cut, text.len() as int) == suffix);
        assert(text =~= text.subrange(0, cut) + text.subrange(cut, text.len() as int));
    }
}

/// A part joined to others stands behind the separator, and one that is alone, by itself.
pub proof fn law_a_part_is_joined_behind_the_others(
    parts: Seq<Seq<char>>,
    separator: Seq<char>,
    part: Seq<char>,
)
    ensures
        joined(Seq::empty(), separator) == Seq::<char>::empty(),
        joined(seq![part], separator) == part,
        parts.len() > 0 ==> joined(parts.push(part), separator) == joined(parts, separator)
            + separator + part,
{
    assert(parts.push(part).drop_last() =~= parts);
    assert(parts.push(part).last() == part);
}

/// Every part stands in what they are joined to.
pub proof fn law_each_part_stands_in_the_whole(
    parts: Seq<Seq<char>>,
    separator: Seq<char>,
    i: int,
)
    requires
        0 <= i < parts.len(),
    ensures
        occurs_in(joined(parts, separator), parts[i]),
    decreases parts.len(),
{
    let whole = joined(parts, separator);
    let none = Seq::<char>::empty();
    if parts.len() == 1 {
        law_where_a_text_occurs(none, parts[i], none);
        assert(none + parts[i] + none =~= whole);
    } else {
        let front = joined(parts.drop_last(), separator);
        if i == parts.len() - 1 {
            law_where_a_text_occurs(front + separator, parts[i], none);
            assert(front + separator + parts[i] + none =~= whole);
        } else {
            law_each_part_stands_in_the_whole(parts.drop_last(), separator, i);
            assert(parts.drop_last()[i] == parts[i]);
            law_what_an_occurrence_is(front, parts[i]);
            let (before, behind) = choose|before: Seq<char>, behind: Seq<char>|
                front == #[trigger] (before + parts[i] + behind);
            law_where_a_text_occurs(before, parts[i], behind + separator + parts.last());
            assert(before + parts[i] + (behind + separator + parts.last()) =~= whole);
        }
    }
}

/// The decimal places of a number are the characters behind its first dot, none where it has no
/// dot.
pub proof fn law_the_places_stand_behind_the_dot(whole: Seq<char>, behind: Seq<char>)
    requires
        !whole.contains('.'),
    ensures
        places(whole + seq!['.'] + behind) == behind.len(),
        places(whole) == 0,
    decreases whole.len(),
{
    let text = whole + seq!['.'] + behind;
    if whole.len() == 0 {
        assert(text[0] == '.');
    } else {
        assert(whole.contains(whole[0]));
        assert(text[0] == whole[0]);
        let rest = whole.skip(1);
        assert forall|i: int| 0 <= i < rest.len() implies rest[i] != '.' by {
            assert(whole.contains(whole[i + 1]));
        }
        law_the_places_stand_behind_the_dot(rest, behind);
        assert(text.skip(1) =~= rest + seq!['.'] + behind);
    }
}

} // verus!
