use vstd::prelude::*;
use vstd::utf8::*;

verus! {

/// The decimal digit `digit` as a character.
pub open spec fn digit_char(digit: nat) -> char {
    ('0' as u32 + digit) as char
}

/// `value` written in decimal, without leading zeros.
pub open spec fn decimal(value: nat) -> Seq<char>
    decreases value,
{
    if value < 10 {
        seq![digit_char(value)]
    } else {
        decimal(value / 10).push(digit_char(value % 10))
    }
}

/// The decimal digit `digit` as text.
fn digit_text(digit: usize) -> (text: &'static str)
    requires
        digit < 10,
    ensures
        text@ == seq![digit_char(digit as nat)],
{
    proof {
        reveal_strlit("0");
        reveal_strlit("1");
        reveal_strlit("2");
        reveal_strlit("3");
        reveal_strlit("4");
        reveal_strlit("5");
        reveal_strlit("6");
        reveal_strlit("7");
        reveal_strlit("8");
        reveal_strlit("9");
    }
    match digit {
        0 => "0",
        1 => "1",
        2 => "2",
        3 => "3",
        4 => "4",
        5 => "5",
        6 => "6",
        7 => "7",
        8 => "8",
        _ => "9",
    }
}

/// Appends `value`, written in decimal, to `out`.
pub fn append_decimal(out: &mut String, value: usize)
    ensures
        final(out)@ == old(out)@ + decimal(value as nat),
    decreases value,
{
    if value >= 10 {
        append_decimal(out, value / 10);
    }
    out.append(digit_text(value % 10));
}

/// `c` in lower case where it is an ASCII letter, else `c` itself.
pub open spec fn ascii_lowercase_char(c: char) -> char {
    if 'A' <= c && c <= 'Z' {
        (c as u32 + 32) as char
    } else {
        c
    }
}

/// `text` with its ASCII letters in lower case.
pub open spec fn ascii_lowercase(text: Seq<char>) -> Seq<char> {
    Seq::new(text.len(), |i: int| ascii_lowercase_char(text[i]))
}

/// Whether `needle` stands in `text` from the character at `at` on.
pub open spec fn stands_at(text: Seq<char>, needle: Seq<char>, at: int) -> bool {
    &&& 0 <= at
    &&& at + needle.len() <= text.len()
    &&& text.subrange(at, at + needle.len()) == needle
}

/// Whether `needle` stands anywhere in `text`.
pub open spec fn contains_text(text: Seq<char>, needle: Seq<char>) -> bool {
    exists|at: int| stands_at(text, needle, at)
}

fn lowercase_char(c: char) -> (lower: char)
    ensures
        lower == ascii_lowercase_char(c),
{
    if 'A' <= c && c <= 'Z' {
        (c as u8 + 32) as char
    } else {
        c
    }
}

/// The characters of `text`, its ASCII letters in lower case.
pub fn lowercase_chars(text: &str) -> (chars: Vec<char>)
    ensures
        chars@ == ascii_lowercase(text@),
{
    let mut chars: Vec<char> = Vec::new();
    for c in it: text.chars()
        invariant
            it.seq() == text@,
            chars@.len() == it.index(),
            forall|i: int| 0 <= i < chars@.len() ==> chars@[i] == ascii_lowercase_char(text@[i]),
    {
        chars.push(lowercase_char(c));
    }
    chars
}

/// The characters of `text`.
fn chars_of(text: &str) -> (chars: Vec<char>)
    ensures
        chars@ == text@,
{
    let mut chars: Vec<char> = Vec::new();
    for c in it: text.chars()
        invariant
            it.seq() == text@,
            chars@ == text@.take(it.index()),
    {
        chars.push(c);
    }
    chars
}

/// Whether `needle` stands in `text` from the character at `at` on.
fn is_at(text: &Vec<char>, needle: &Vec<char>, at: usize) -> (found: bool)
    requires
        at + needle@.len() <= text@.len(),
    ensures
        found == stands_at(text@, needle@, at as int),
{
    let length: usize = text.len();
    let mut i: usize = 0;
    while i < needle.len()
        invariant
            at + needle@.len() <= text@.len(),
            text@.len() == length,
            i <= needle@.len(),
            forall|j: int| 0 <= j < i ==> text@[at + j] == needle@[j],
        decreases needle@.len() - i,
    {
        if text[at + i] != needle[i] {
            assert(text@.subrange(at as int, at + needle@.len())[i as int] != needle@[i as int]);
            return false;
        }
        i += 1;
    }
    assert(text@.subrange(at as int, at + needle@.len()) =~= needle@);
    true
}

/// Whether `needle` stands anywhere in `text`.
pub fn contains(text: &Vec<char>, needle: &str) -> (found: bool)
    ensures
        found == contains_text(text@, needle@),
{
    let sought = chars_of(needle);
    if sought.len() > text.len() {
        return false;
    }
    let last: usize = text.len() - sought.len();
    let mut at: usize = 0;
    loop
        invariant
            at <= last,
            last + needle@.len() == text@.len(),
            sought@ == needle@,
            forall|before: int| before < at ==> !stands_at(text@, needle@, before),
        decreases last - at,
    {
        if is_at(text, &sought, at) {
            return true;
        }
        if at == last {
            return false;
        }
        at += 1;
    }
}

/// How many characters from the start of `text` fit in `limit` bytes of UTF-8.
pub open spec fn fitting_chars(text: Seq<char>, limit: int) -> nat
    decreases text.len(),
{
    if text.len() == 0 || encode_scalar(text[0] as u32).len() > limit {
        0
    } else {
        1 + fitting_chars(text.drop_first(), limit - encode_scalar(text[0] as u32).len())
    }
}

/// The number of fitting characters is the one number at which the characters so far fit and
/// those up to the next character do not.
pub proof fn fitting_chars_is_longest(text: Seq<char>, limit: int, count: nat)
    requires
        0 <= limit,
    ensures
        count == fitting_chars(text, limit) <==> {
            &&& count <= text.len()
            &&& encode_utf8(text.take(count as int)).len() <= limit
            &&& count < text.len() ==> encode_utf8(text.take(count as int + 1)).len() > limit
        },
    decreases text.len(),
{
    if text.len() > 0 {
        let first = encode_scalar(text[0] as u32);
        let rest = text.drop_first();
        assert(text.take(0) =~= Seq::<char>::empty());
        assert(encode_utf8(text.take(0)).len() == 0);
        assert forall|n: nat| 0 < n <= text.len() implies encode_utf8(#[trigger] text.take(n as int))
            == first + encode_utf8(rest.take(n - 1)) by {
            assert(text.take(n as int).drop_first() =~= rest.take(n - 1));
        }
        assert(rest.take(0) =~= Seq::<char>::empty());
        assert(encode_utf8(rest.take(0)).len() == 0);
        if first.len() <= limit {
            if count > 0 {
                fitting_chars_is_longest(rest, limit - first.len(), (count - 1) as nat);
            }
        }
    } else {
        assert(text.take(0) =~= Seq::<char>::empty());
    }
}

/// The UTF-8 bytes of the first `count` characters of `text` end at a character boundary.
proof fn lemma_char_boundary(text: Seq<char>, count: nat)
    requires
        count <= text.len(),
    ensures
        is_char_boundary(encode_utf8(text), encode_utf8(text.take(count as int)).len() as int),
        encode_utf8(text.take(count as int)).len() <= encode_utf8(text).len(),
    decreases count,
{
    broadcast use encode_utf8_valid_utf8;

    let bytes = encode_utf8(text);
    if count == 0 {
        assert(text.take(0) =~= Seq::<char>::empty());
    } else {
        let first = encode_scalar(text[0] as u32);
        let rest = text.drop_first();
        encode_utf8_first_scalar(text);
        lemma_char_boundary(rest, (count - 1) as nat);
        assert(text.take(count as int).drop_first() =~= rest.take(count - 1));
        assert(pop_first_scalar(bytes) =~= encode_utf8(rest));
    }
}

/// The longest start of `text` whose UTF-8 form has at most `limit` bytes.
pub fn prefix_within(text: &str, limit: usize) -> (prefix: &str)
    ensures
        prefix@ == text@.take(fitting_chars(text@, limit as int) as int),
        prefix@.len() < text@.len() ==> encode_utf8(prefix@).len() < encode_utf8(text@).len(),
{
    broadcast use encode_utf8_valid_utf8, is_char_boundary_start_end_of_seq;

    let length: usize = text.as_bytes().len();
    let mut end: usize = if length < limit { length } else { limit };
    let ghost bytes = encode_utf8(text@);
    while !text.is_char_boundary(end)
        invariant
            bytes == encode_utf8(text@),
            valid_utf8(bytes),
            length == bytes.len(),
            end <= length,
            end <= limit,
            forall|later: int| end < later <= length && later <= limit ==> !is_char_boundary(bytes, later),
        decreases end,
    {
        assert(is_char_boundary(bytes, 0));
        end = end - 1;
    }
    let (prefix, rest) = text.split_at(end);
    proof {
        let count = prefix@.len();
        encode_utf8_decode_utf8(text@);
        encode_utf8_decode_utf8(prefix@);
        encode_utf8_decode_utf8(rest@);
        decode_utf8_split(bytes, end as int);
        assert(text@ =~= prefix@ + rest@);
        assert(text@.take(count as int) =~= prefix@);
        if count < text@.len() {
            lemma_char_boundary(text@, (count + 1) as nat);
            assert(text@.take(count as int + 1) =~= prefix@.push(rest@[0]));
            lemma_longer(prefix@, rest@[0]);
        }
        fitting_chars_is_longest(text@, limit as int, count);
    }
    prefix
}

/// One more character takes more bytes.
proof fn lemma_longer(text: Seq<char>, next: char)
    ensures
        encode_utf8(text.push(next)).len() > encode_utf8(text).len(),
    decreases text.len(),
{
    if text.len() == 0 {
        assert(text.push(next).drop_first() =~= Seq::<char>::empty());
    } else {
        lemma_longer(text.drop_first(), next);
        assert(text.push(next).drop_first() =~= text.drop_first().push(next));
    }
}

/// The number that a row of decimal digits stands for.
pub open spec fn number(digits: Seq<char>) -> int
    decreases digits.len(),
{
    if digits.len() == 0 {
        0
    } else {
        10 * number(digits.drop_last()) + (digits.last() as u32 - 48)
    }
}

/// A number written in decimal is read back as itself. It is made of digits alone, and has no
/// leading zero.
pub proof fn decimal_is_read_back(value: nat)
    ensures
        number(decimal(value)) == value,
        decimal(value).len() > 0,
        forall|i: int| 0 <= i < decimal(value).len() ==> 48 <= #[trigger] decimal(value)[i] as u32 <= 57,
        value > 0 ==> decimal(value)[0] as u32 != 48,
        value == 0 ==> decimal(value).len() == 1,
    decreases value,
{
    if value < 10 {
        assert(decimal(value).drop_last() =~= Seq::<char>::empty());
        assert(number(decimal(value).drop_last()) == 0);
    } else {
        decimal_is_read_back(value / 10);
        assert(decimal(value).drop_last() =~= decimal(value / 10));
        assert(decimal(value)[0] == decimal(value / 10)[0]);
    }
}

/// What is appended for a number is read back as that number, and what was there stays.
pub proof fn appended_number_is_read_back(out: &mut String, value: usize)
    requires
        call_ensures(append_decimal, (out, value), ()),
    ensures
        old(out)@.len() < final(out)@.len(),
        final(out)@.take(old(out)@.len() as int) == old(out)@,
        number(final(out)@.skip(old(out)@.len() as int)) == value,
{
    decimal_is_read_back(value as nat);
    assert(final(out)@.skip(old(out)@.len() as int) =~= decimal(value as nat));
    assert(final(out)@.take(old(out)@.len() as int) =~= old(out)@);
}

/// The capital letters from `A` to `Z` give way to the small ones, and every other character
/// stays as it is, in its place.
pub proof fn only_capitals_are_changed(text: &str, chars: Vec<char>, i: int)
    requires
        call_ensures(lowercase_chars, (text,), chars),
        0 <= i < text@.len(),
    ensures
        chars@.len() == text@.len(),
        65 <= text@[i] as u32 <= 90 ==> chars@[i] as u32 == text@[i] as u32 + 32,
        !(65 <= text@[i] as u32 <= 90) ==> chars@[i] == text@[i],
{
}

/// A text is found in another exactly where the other is made of something, that text, and
/// something.
pub proof fn found_text_is_a_part(text: &Vec<char>, needle: &str, found: bool)
    requires
        call_ensures(contains, (text, needle), found),
    ensures
        found <==> exists|before: Seq<char>, after: Seq<char>| text@ == #[trigger] (before + needle@ + after),
{
    if found {
        let at = choose|at: int| stands_at(text@, needle@, at);
        let before = text@.take(at);
        let after = text@.skip(at + needle@.len());
        assert(text@.subrange(at, at + needle@.len()) == needle@);
        assert(text@ =~= before + needle@ + after) by {
            assert forall|i: int| 0 <= i < text@.len() implies text@[i] == (before + needle@ + after)[i] by {
                if at <= i < at + needle@.len() {
                    assert(text@.subrange(at, at + needle@.len())[i - at] == needle@[i - at]);
                }
            }
        }
    }
    if exists|before: Seq<char>, after: Seq<char>| text@ == #[trigger] (before + needle@ + after) {
        let (before, after) = choose|before: Seq<char>, after: Seq<char>|
            text@ == #[trigger] (before + needle@ + after);
        assert(text@.subrange(before.len() as int, (before.len() + needle@.len()) as int) =~= needle@);
        assert(stands_at(text@, needle@, before.len() as int));
    }
}

/// A start of a text that has to fit in a number of bytes is one, fits, and would not fit with
/// the next character.
pub proof fn prefix_is_the_longest_that_fits(text: &str, limit: usize, prefix: &str)
    requires
        call_ensures(prefix_within, (text, limit), prefix),
    ensures
        prefix@.len() <= text@.len(),
        prefix@ == text@.take(prefix@.len() as int),
        encode_utf8(prefix@).len() <= limit,
        prefix@.len() < text@.len() ==> encode_utf8(text@.take(prefix@.len() as int + 1)).len() > limit,
{
    let count = fitting_chars(text@, limit as int);
    fitting_chars_is_longest(text@, limit as int, count);
    assert(prefix@.len() == count);
}

} // verus!
