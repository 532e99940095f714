//! Numbers written out as text, and searching and trimming of text.

use vstd::prelude::*;

verus! {

/// The character of a digit, up to base 16.
pub open spec fn digit(value: nat) -> char {
    "0123456789abcdef"@[value as int]
}

/// `number` written in the given base, most significant digit first, without
/// leading zeros.
pub open spec fn digits(number: nat, base: nat) -> Seq<char>
    decreases number,
{
    if number < base || base < 2 {
        seq![digit(number)]
    } else {
        proof {
            vstd::arithmetic::div_mod::lemma_div_decreases(number as int, base as int);
        }
        digits(number / base, base).push(digit(number % base))
    }
}

/// `number` in decimal.
pub open spec fn decimal(number: nat) -> Seq<char> {
    digits(number, 10)
}

/// `number` in hexadecimal, with the prefix `0x`.
pub open spec fn hexadecimal(number: nat) -> Seq<char> {
    "0x"@ + digits(number, 16)
}

/// `number` in decimal, with a minus sign if it is negative.
pub open spec fn signed_decimal(number: int) -> Seq<char> {
    if number < 0 {
        "-"@ + decimal((-number) as nat)
    } else {
        decimal(number as nat)
    }
}

/// Different numbers are written differently.
pub proof fn law_digits_tell_apart(a: nat, b: nat, base: nat)
    requires
        2 <= base <= 16,
        digits(a, base) == digits(b, base),
    ensures
        a == b,
    decreases a,
{
    reveal_strlit("0123456789abcdef");
    let (x, y) = (digits(a, base), digits(b, base));
    lemma_digits_shape(a, base);
    lemma_digits_shape(b, base);
    assert(x.last() == y.last());
    if a >= base {
        assert(x.drop_last() =~= digits(a / base, base));
        assert(y.drop_last() =~= digits(b / base, base));
        vstd::arithmetic::div_mod::lemma_div_decreases(a as int, base as int);
        law_digits_tell_apart(a / base, b / base, base);
        vstd::arithmetic::div_mod::lemma_fundamental_div_mod(a as int, base as int);
        vstd::arithmetic::div_mod::lemma_fundamental_div_mod(b as int, base as int);
    } else {
        vstd::arithmetic::div_mod::lemma_small_mod(a, base);
        vstd::arithmetic::div_mod::lemma_small_mod(b, base);
    }
}

/// A number ends in the digit of its remainder, and has one digit exactly if it
/// is below the base.
proof fn lemma_digits_shape(number: nat, base: nat)
    requires
        2 <= base <= 16,
    ensures
        digits(number, base).len() >= 1,
        digits(number, base).last() == digit(number % base),
        0 <= number % base < base,
        digits(number, base).len() == 1 <==> number < base,
{
    vstd::arithmetic::div_mod::lemma_mod_bound(number as int, base as int);
    if number < base {
        vstd::arithmetic::div_mod::lemma_small_mod(number, base);
    } else {
        vstd::arithmetic::div_mod::lemma_div_decreases(number as int, base as int);
        assert(digits(number / base, base).len() >= 1) by {
            reveal_with_fuel(digits, 2);
        }
    }
}

fn write_digits(number: u32, base: u32) -> (text: String)
    requires
        2 <= base <= 16,
    ensures
        text@ == digits(number as nat, base as nat),
    decreases number,
{
    proof {
        reveal_strlit("0123456789abcdef");
    }
    let low: usize = (number % base) as usize;
    let last = "0123456789abcdef".substring_ascii(low, low + 1);
    assert(last@ =~= seq![digit((number % base) as nat)]);
    if number < base {
        last.to_owned()
    } else {
        let mut text = write_digits(number / base, base);
        text.append(last);
        assert(text@ =~= digits(number as nat, base as nat));
        text
    }
}

/// Writes `number` in decimal.
pub fn write_decimal(number: u32) -> (text: String)
    ensures
        text@ == decimal(number as nat),
{
    write_digits(number, 10)
}

/// Writes `number` in hexadecimal, with the prefix `0x`.
pub fn write_hexadecimal(number: u32) -> (text: String)
    ensures
        text@ == hexadecimal(number as nat),
{
    "0x".to_owned().concat(write_digits(number, 16).as_str())
}

/// Writes `number` in decimal, with a minus sign if it is negative.
pub fn write_signed_decimal(number: i32) -> (text: String)
    ensures
        text@ == signed_decimal(number as int),
{
    if number < 0 {
        let magnitude: u32 = (-(number as i64)) as u32;
        "-".to_owned().concat(write_decimal(magnitude).as_str())
    } else {
        write_decimal(number as u32)
    }
}

/// Whether `pattern` stands somewhere in `text`, without gaps.
pub open spec fn occurs(pattern: Seq<char>, text: Seq<char>) -> bool {
    exists|at: int| occurs_at(pattern, text, at)
}

/// Whether `pattern` stands in `text` at position `at`.
pub open spec fn occurs_at(pattern: Seq<char>, text: Seq<char>, at: int) -> bool {
    &&& 0 <= at
    &&& at + pattern.len() <= text.len()
    &&& text.subrange(at, at + pattern.len()) == pattern
}

/// Whether `pattern`, which ends in a number, stands in `text` at position `at`
/// with that number whole: no further digit follows.
pub open spec fn stands_whole(pattern: Seq<char>, text: Seq<char>, at: int) -> bool {
    &&& occurs_at(pattern, text, at)
    &&& at + pattern.len() == text.len() || !('0' <= text[at + pattern.len()] <= '9')
}

/// Whether `pattern` stands somewhere in `text` with no further digit behind it.
pub open spec fn occurs_whole(pattern: Seq<char>, text: Seq<char>) -> bool {
    exists|at: int| stands_whole(pattern, text, at)
}

/// The characters of a text.
pub(crate) fn chars_of(text: &str) -> (chars: Vec<char>)
    ensures
        chars@ == text@,
{
    let mut chars: Vec<char> = Vec::new();
    for c in it: text.chars()
        invariant
            chars@ == text@.take(it.index() as int),
            it.seq() == text@,
    {
        chars.push(c);
    }
    assert(text@.take(text@.len() as int) =~= text@);
    chars
}

/// Whether `pattern` stands in `text` at position `at`.
fn matches_at(pattern: &Vec<char>, text: &Vec<char>, at: usize) -> (found: bool)
    requires
        at + pattern@.len() <= text@.len(),
    ensures
        found == occurs_at(pattern@, text@, at as int),
{
    let length: usize = text.len();
    let mut done: usize = 0;
    while done < pattern.len()
        invariant
            length == text@.len(),
            at + pattern@.len() <= text@.len(),
            done <= pattern@.len(),
            forall|i: int| 0 <= i < done ==> #[trigger] pattern@[i] == text@[at + i],
        decreases pattern@.len() - done,
    {
        if pattern[done] != text[at + done] {
            assert(text@.subrange(at as int, at + pattern@.len())[done as int] != pattern@[done as int]);
            return false;
        }
        done += 1;
    }
    assert(text@.subrange(at as int, at + pattern@.len()) =~= pattern@);
    true
}

/// Whether `pattern` stands somewhere in `text`.
pub(crate) fn contains_chars(pattern: &Vec<char>, text: &Vec<char>) -> (found: bool)
    ensures
        found == occurs(pattern@, text@),
{
    if pattern.len() > text.len() {
        return false;
    }
    let mut at: usize = 0;
    while at <= text.len() - pattern.len()
        invariant
            pattern@.len() <= text@.len(),
            at <= text@.len() - pattern@.len() + 1,
            forall|i: int| 0 <= i < at ==> !occurs_at(pattern@, text@, i),
        decreases text@.len() - at,
    {
        if matches_at(pattern, text, at) {
            return true;
        }
        if at == text.len() - pattern.len() {
            return false;
        }
        at += 1;
    }
    false
}

/// Whether `pattern` stands somewhere in `text` with no further digit behind it.
pub(crate) fn contains_whole_chars(pattern: &Vec<char>, text: &Vec<char>) -> (found: bool)
    ensures
        found == occurs_whole(pattern@, text@),
{
    if pattern.len() > text.len() {
        return false;
    }
    let last: usize = text.len() - pattern.len();
    let mut at: usize = 0;
    loop
        invariant
            last + pattern@.len() == text@.len(),
            text@.len() <= usize::MAX,
            at <= last,
            forall|i: int| 0 <= i < at ==> !stands_whole(pattern@, text@, i),
        decreases last - at,
    {
        if matches_at(pattern, text, at) {
            let end: usize = at + pattern.len();
            if at == last || !('0' <= text[end] && text[end] <= '9') {
                assert(stands_whole(pattern@, text@, at as int));
                return true;
            }
        }
        if at == last {
            return false;
        }
        at += 1;
    }
}

/// Whether `pattern` stands somewhere in `text`.
pub fn contains(text: &str, pattern: &str) -> (found: bool)
    ensures
        found == occurs(pattern@, text@),
{
    contains_chars(&chars_of(pattern), &chars_of(text))
}

/// Whether two texts are the same.
pub(crate) fn same_text(a: &str, b: &str) -> (same: bool)
    ensures
        same == (a@ == b@),
{
    a.to_owned() == b.to_owned()
}

/// Whether a character is white space, as Unicode's property `White_Space` has
/// it.
pub open spec fn is_white_space(c: char) -> bool {
    ||| '\u{9}' <= c <= '\u{d}'
    ||| c == '\u{20}'
    ||| c == '\u{85}'
    ||| c == '\u{a0}'
    ||| c == '\u{1680}'
    ||| '\u{2000}' <= c <= '\u{200a}'
    ||| c == '\u{2028}'
    ||| c == '\u{2029}'
    ||| c == '\u{202f}'
    ||| c == '\u{205f}'
    ||| c == '\u{3000}'
}

/// The text without white space at its start.
pub open spec fn trim_start(text: Seq<char>) -> Seq<char>
    decreases text.len(),
{
    if text.len() > 0 && is_white_space(text[0]) {
        trim_start(text.drop_first())
    } else {
        text
    }
}

/// The text without white space at its end.
pub open spec fn trim_end(text: Seq<char>) -> Seq<char>
    decreases text.len(),
{
    if text.len() > 0 && is_white_space(text.last()) {
        trim_end(text.drop_last())
    } else {
        text
    }
}

/// The text without white space at either end.
pub open spec fn trim(text: Seq<char>) -> Seq<char> {
    trim_end(trim_start(text))
}

/// Whether a character is white space.
pub fn white_space(c: char) -> (white: bool)
    ensures
        white == is_white_space(c),
{
    ('\u{9}' <= c && c <= '\u{d}') || c == '\u{20}' || c == '\u{85}' || c == '\u{a0}' || c
        == '\u{1680}' || ('\u{2000}' <= c && c <= '\u{200a}') || c == '\u{2028}' || c == '\u{2029}'
        || c == '\u{202f}' || c == '\u{205f}' || c == '\u{3000}'
}

/// Removes white space from both ends of a text.
pub fn trimmed(text: &str) -> (rest: String)
    ensures
        rest@ == trim(text@),
{
    let chars = chars_of(text);
    let mut from: usize = 0;
    assert(text@.subrange(0, text@.len() as int) =~= text@);
    while from < chars.len() && white_space(chars[from])
        invariant
            chars@ == text@,
            from <= chars@.len(),
            trim_start(text@) == trim_start(text@.subrange(from as int, text@.len() as int)),
        decreases chars@.len() - from,
    {
        proof {
            let rest = text@.subrange(from as int, text@.len() as int);
            assert(rest.drop_first() =~= text@.subrange(from + 1, text@.len() as int));
        }
        from += 1;
    }
    let ghost front = text@.subrange(from as int, text@.len() as int);
    assert(trim_start(text@) == front);
    let mut to: usize = chars.len();
    while from < to && white_space(chars[to - 1])
        invariant
            chars@ == text@,
            from <= to <= chars@.len(),
            trim_start(text@) == front,
            trim_end(front) == trim_end(text@.subrange(from as int, to as int)),
        decreases to,
    {
        proof {
            let rest = text@.subrange(from as int, to as int);
            assert(rest.drop_last() =~= text@.subrange(from as int, to - 1));
        }
        to -= 1;
    }
    text.substring_char(from, to).to_owned()
}

/// Writing a number and then one more digit is writing the number with that
/// digit appended: a single digit below ten is counted from `0`, one from ten on
/// from `a`, and no leading zero is written.
pub proof fn law_digits_appended(number: nat, low: nat, base: nat)
    requires
        2 <= base <= 16,
        low < base,
    ensures
        digits(low, base).len() == 1,
        digits(low, base)[0] as int == if low < 10 {
            '0' as int + low
        } else {
            'a' as int + low - 10
        },
        number > 0 ==> digits(number * base + low, base) == digits(number, base) + digits(
            low,
            base,
        ),
{
    reveal_strlit("0123456789abcdef");
    assert("0123456789abcdef"@[low as int] as int == if low < 10 {
        '0' as int + low
    } else {
        'a' as int + low - 10
    });
    if number > 0 {
        let whole = number * base + low;
        assert(whole >= base) by (nonlinear_arith)
            requires
                number > 0,
                whole == number * base + low,
        ;
        vstd::arithmetic::div_mod::lemma_fundamental_div_mod_converse(
            whole as int,
            base as int,
            number as int,
            low as int,
        );
        assert(digits(whole, base) =~= digits(number, base) + digits(low, base));
    }
}

/// In decimal, a digit is counted from `0`, and ten times a number plus a digit
/// is written as the number with that digit appended.
pub proof fn law_decimal(number: nat, low: nat)
    requires
        low < 10,
    ensures
        decimal(low).len() == 1,
        decimal(low)[0] as int == '0' as int + low,
        number > 0 ==> decimal(10 * number + low) == decimal(number) + decimal(low),
{
    law_digits_appended(number, low, 10);
}

/// In hexadecimal, a digit stands behind `0x`, counted from `0` and from `a`, and
/// sixteen times a number plus a digit is written as the number with that digit
/// appended.
pub proof fn law_hexadecimal(number: nat, low: nat)
    requires
        low < 16,
    ensures
        hexadecimal(low).len() == 3,
        hexadecimal(low)[0] == '0',
        hexadecimal(low)[1] == 'x',
        hexadecimal(low)[2] as int == if low < 10 {
            '0' as int + low
        } else {
            'a' as int + low - 10
        },
        number > 0 ==> hexadecimal(16 * number + low) == hexadecimal(number).push(
            hexadecimal(low)[2],
        ),
{
    reveal_strlit("0x");
    law_digits_appended(number, low, 16);
    if number > 0 {
        assert(hexadecimal(16 * number + low) =~= hexadecimal(number).push(hexadecimal(low)[2]));
    }
}

/// A number is written as in decimal, and its negative with a minus sign before.
pub proof fn law_signed_decimal(number: nat)
    ensures
        signed_decimal(number as int) == decimal(number),
        number > 0 ==> signed_decimal(-number) == seq!['-'] + decimal(number),
{
    reveal_strlit("-");
    assert("-"@ =~= seq!['-']);
}

/// A pattern occurs in a text exactly if the text is something, the pattern, and
/// something.
pub proof fn law_occurs(pattern: Seq<char>, text: Seq<char>)
    ensures
        occurs(pattern, text) <==> exists|before: Seq<char>, after: Seq<char>|
            text == #[trigger] (before + pattern + after),
{
    if occurs(pattern, text) {
        let at = choose|at: int| occurs_at(pattern, text, at);
        let (before, after) = (text.take(at), text.skip(at + pattern.len()));
        lemma_parts(pattern, text, at);
        assert(text == before + pattern + after);
    }
    if exists|before: Seq<char>, after: Seq<char>| text == #[trigger] (before + pattern + after) {
        let (before, after) = choose|before: Seq<char>, after: Seq<char>|
            text == #[trigger] (before + pattern + after);
        assert(text.subrange(before.len() as int, (before.len() + pattern.len()) as int) =~= pattern);
        assert(occurs_at(pattern, text, before.len() as int));
    }
}

/// A text in which a pattern occurs is what stands before, the pattern, and what
/// stands behind.
proof fn lemma_parts(pattern: Seq<char>, text: Seq<char>, at: int)
    requires
        occurs_at(pattern, text, at),
    ensures
        text == text.take(at) + pattern + text.skip(at + pattern.len()),
{
    let whole = text.take(at) + pattern + text.skip(at + pattern.len());
    assert forall|i: int| 0 <= i < text.len() implies text[i] == whole[i] by {
        if at <= i < at + pattern.len() {
            assert(text.subrange(at, at + pattern.len())[i - at] == pattern[i - at]);
        }
    }
    assert(text =~= whole);
}

/// A pattern occurs whole in a text exactly if the text is something, the
/// pattern, and something that does not start with a digit.
pub proof fn law_occurs_whole(pattern: Seq<char>, text: Seq<char>)
    ensures
        occurs_whole(pattern, text) <==> exists|before: Seq<char>, after: Seq<char>|
            text == #[trigger] (before + pattern + after) && (after.len() == 0 || !('0' <= after[0]
                <= '9')),
{
    if occurs_whole(pattern, text) {
        let at = choose|at: int| stands_whole(pattern, text, at);
        let (before, after) = (text.take(at), text.skip(at + pattern.len()));
        lemma_parts(pattern, text, at);
        assert(text == before + pattern + after);
        if after.len() > 0 {
            assert(after[0] == text[at + pattern.len()]);
        }
    }
    if exists|before: Seq<char>, after: Seq<char>|
        text == #[trigger] (before + pattern + after) && (after.len() == 0 || !('0' <= after[0]
            <= '9')) {
        let (before, after) = choose|before: Seq<char>, after: Seq<char>|
            text == #[trigger] (before + pattern + after) && (after.len() == 0 || !('0' <= after[0]
                <= '9'));
        assert(text.subrange(before.len() as int, (before.len() + pattern.len()) as int) =~= pattern);
        assert(stands_whole(pattern, text, before.len() as int));
    }
}

/// The white-space characters by their code points.
pub proof fn law_white_space(c: char)
    ensures
        is_white_space(c) <==> {
            let code = c as int;
            ||| 9 <= code <= 13
            ||| code == 32
            ||| code == 133
            ||| code == 160
            ||| code == 5760
            ||| 8192 <= code <= 8202
            ||| code == 8232
            ||| code == 8233
            ||| code == 8239
            ||| code == 8287
            ||| code == 12288
        },
{
}

/// Trimming takes white space off both ends and nothing else, and leaves a text
/// that neither starts nor ends with white space.
pub proof fn law_trim(text: Seq<char>) -> (cut: (Seq<char>, Seq<char>))
    ensures
        text == cut.0 + trim(text) + cut.1,
        forall|i: int| 0 <= i < cut.0.len() ==> is_white_space(#[trigger] cut.0[i]),
        forall|i: int| 0 <= i < cut.1.len() ==> is_white_space(#[trigger] cut.1[i]),
        trim(text).len() > 0 ==> !is_white_space(trim(text)[0]) && !is_white_space(
            trim(text).last(),
        ),
{
    let front = lemma_trim_start(text);
    let back = lemma_trim_end(trim_start(text));
    assert(text =~= front + trim(text) + back);
    if trim(text).len() > 0 {
        assert(trim(text)[0] == trim_start(text)[0]);
    }
    (front, back)
}

proof fn lemma_trim_start(text: Seq<char>) -> (cut: Seq<char>)
    ensures
        text == cut + trim_start(text),
        forall|i: int| 0 <= i < cut.len() ==> is_white_space(#[trigger] cut[i]),
        trim_start(text).len() > 0 ==> !is_white_space(trim_start(text)[0]),
    decreases text.len(),
{
    if text.len() > 0 && is_white_space(text[0]) {
        let rest = lemma_trim_start(text.drop_first());
        let cut = seq![text[0]] + rest;
        assert(text =~= seq![text[0]] + text.drop_first());
        assert(text =~= cut + trim_start(text));
        cut
    } else {
        assert(text =~= Seq::<char>::empty() + text);
        Seq::empty()
    }
}

proof fn lemma_trim_end(text: Seq<char>) -> (cut: Seq<char>)
    ensures
        text == trim_end(text) + cut,
        forall|i: int| 0 <= i < cut.len() ==> is_white_space(#[trigger] cut[i]),
        trim_end(text).len() > 0 ==> !is_white_space(trim_end(text).last()),
    decreases text.len(),
{
    if text.len() > 0 && is_white_space(text.last()) {
        let rest = lemma_trim_end(text.drop_last());
        let cut = rest.push(text.last());
        assert(text =~= text.drop_last().push(text.last()));
        assert(text =~= trim_end(text) + cut);
        cut
    } else {
        assert(text =~= text + Seq::<char>::empty());
        Seq::empty()
    }
}

} // verus!
