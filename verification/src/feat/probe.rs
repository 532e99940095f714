//! Whether the rules are still installed.

use crate::constants::tproxy::{MARK, TABLE};
use crate::feat::tproxy::{RulesReconcile, RunningMode};
use crate::text::{chars_of, contains_whole_chars, write_decimal, write_hexadecimal};
use vstd::prelude::*;
use vstd::utf8::{
    decode_utf8, decode_utf8_first_scalar, encode_scalar, encode_utf8, is_ascii_chars,
    is_ascii_chars_encode_utf8, length_of_first_scalar, pop_first_scalar, valid_utf8,
};

verus! {

use crate::feat::tproxy::script_args;
use crate::text::{decimal, digits, hexadecimal, law_digits_tell_apart, law_occurs_whole, occurs_whole, stands_whole};

/// Bytes read as one character each.
pub open spec fn as_chars(bytes: Seq<u8>) -> Seq<char> {
    bytes.map_values(|byte: u8| byte as char)
}

/// Whether the characters from `from` up to `to` are a whole line of `text`.
pub open spec fn is_line(text: Seq<char>, from: int, to: int) -> bool {
    &&& 0 <= from <= to <= text.len()
    &&& from == 0 || text[from - 1] == '\n'
    &&& to == text.len() || text[to] == '\n'
    &&& forall|i: int| from <= i < to ==> text[i] != '\n'
}

/// How a policy rule that sends the mark to the table is listed, with the mark
/// as given.
pub open spec fn rule_text(mark: Seq<char>) -> Seq<char> {
    "fwmark "@ + mark + " lookup "@ + decimal(TABLE as nat)
}

/// Whether a line lists our policy rule: the mark, and the table with nothing
/// added to its number, so that table 1000 is not taken for table 100. iproute2
/// writes the mark in hexadecimal; the decimal form counts too, so that a change
/// of format cannot hide a stale rule set.
pub open spec fn names_our_rule(line: Seq<char>) -> bool {
    ||| occurs_whole(rule_text(hexadecimal(MARK as nat)), line)
    ||| occurs_whole(rule_text(decimal(MARK as nat)), line)
}

/// Whether some line of a listing names our policy rule.
pub open spec fn lists_our_rule(listing: Seq<char>) -> bool {
    exists|from: int, to: int|
        #[trigger] is_line(listing, from, to) && names_our_rule(listing.subrange(from, to))
}

/// Whether the output of `ip rule` shows our policy rule. Without output it
/// does not.
pub open spec fn stale(listing: Option<Seq<u8>>) -> bool {
    match listing {
        Some(bytes) => lists_our_rule(as_chars(bytes)),
        None => false,
    }
}

fn read_chars(bytes: &Vec<u8>) -> (chars: Vec<char>)
    ensures
        chars@ == as_chars(bytes@),
{
    let mut chars: Vec<char> = Vec::new();
    let mut done: usize = 0;
    while done < bytes.len()
        invariant
            done <= bytes@.len(),
            chars@ == as_chars(bytes@).take(done as int),
        decreases bytes@.len() - done,
    {
        chars.push(bytes[done] as char);
        done += 1;
        assert(chars@ =~= as_chars(bytes@).take(done as int));
    }
    assert(as_chars(bytes@).take(done as int) =~= as_chars(bytes@));
    chars
}

fn write_rule_text(mark: String) -> (chars: Vec<char>)
    ensures
        chars@ == rule_text(mark@),
{
    let text = "fwmark ".to_owned().concat(mark.as_str()).concat(" lookup ").concat(
        write_decimal(TABLE).as_str(),
    );
    chars_of(text.as_str())
}

/// Whether some line of a listing names our policy rule.
fn find_our_rule(listing: &Vec<char>) -> (found: bool)
    ensures
        found == lists_our_rule(listing@),
{
    let in_hexadecimal = write_rule_text(write_hexadecimal(MARK));
    let in_decimal = write_rule_text(write_decimal(MARK));
    let ghost text = listing@;
    let ghost mut from: int = 0;
    let mut line: Vec<char> = Vec::new();
    let mut at: usize = 0;
    loop
        invariant
            text == listing@,
            in_hexadecimal@ == rule_text(hexadecimal(MARK as nat)),
            in_decimal@ == rule_text(decimal(MARK as nat)),
            0 <= from <= at <= text.len(),
            line@ == text.subrange(from, at as int),
            from == 0 || text[from - 1] == '\n',
            forall|i: int| from <= i < at ==> text[i] != '\n',
            forall|start: int, end: int|
                #[trigger] is_line(text, start, end) && end < from ==> !names_our_rule(
                    text.subrange(start, end),
                ),
        decreases text.len() - at,
    {
        let over = at == listing.len();
        if over || listing[at] == '\n' {
            assert(is_line(text, from, at as int));
            if contains_whole_chars(&in_hexadecimal, &line)
                || contains_whole_chars(&in_decimal, &line) {
                return true;
            }
            assert forall|start: int, end: int| #[trigger]
                is_line(text, start, end) && end <= at implies !names_our_rule(
                text.subrange(start, end),
            ) by {
                if from <= end {
                    assert(end == at);
                    assert(start == from);
                }
            }
            if over {
                return false;
            }
            line = Vec::new();
            proof {
                from = at + 1;
            }
        } else {
            line.push(listing[at]);
        }
        at += 1;
        assert(line@ =~= text.subrange(from, at as int));
    }
}

/// Whether our policy-routing rules are still installed, going by what `ip
/// rule` wrote, if it could be run.
///
/// iproute2 lists a rule as `<pref>: from all fwmark 0xff lookup 100`, so the
/// mark and the table must stand on one line. Only the routing piece is looked
/// for: reading iptables needs root, and the local route cannot be left behind
/// without the rule anyway.
pub fn stale_rules_present(listing: Option<Vec<u8>>) -> (present: bool)
    ensures
        present == stale(
            match listing {
                Some(bytes) => Some(bytes@),
                None => None,
            },
        ),
        present <==> (listing matches Some(bytes) && {
            ||| exists|before: Seq<u8>, after: Seq<u8>|
                bytes@ == #[trigger] (before + encode_utf8("fwmark 0xff lookup 100"@) + after) && (
                after.len() == 0 || !(0x30 <= after[0] <= 0x39))
            ||| exists|before: Seq<u8>, after: Seq<u8>|
                bytes@ == #[trigger] (before + encode_utf8("fwmark 255 lookup 100"@) + after) && (
                after.len() == 0 || !(0x30 <= after[0] <= 0x39))
        }),
{
    match listing {
        Some(bytes) => {
            proof {
                law_stale_bytes(bytes@);
            }
            find_our_rule(&read_chars(&bytes))
        },
        None => false,
    }
}

/// Decides the removal of the rules for the exit path. The rules are removed
/// only if they are there, so that no elevation prompt comes up on exits where
/// the kernel state is already clean.
pub fn tproxy_rules_disabled_cleanup(listing: Option<Vec<u8>>) -> (target: Option<RulesReconcile>)
    ensures
        target == if stale(
            match listing {
                Some(bytes) => Some(bytes@),
                None => None,
            },
        ) {
            Some(RulesReconcile::Disable)
        } else {
            None
        },
{
    if stale_rules_present(listing) {
        Some(RulesReconcile::Disable)
    } else {
        None
    }
}

/// Whether a text is ASCII, without line breaks.
pub open spec fn plain(text: Seq<char>) -> bool {
    forall|i: int| 0 <= i < text.len() ==> #[trigger] text[i] < '\u{80}' && text[i] != '\n'
}

/// Whether `text` is a way to read `bytes` as text in which an ASCII byte stands
/// for itself and other bytes, one or several at a time, for some character that
/// is not ASCII. Decoding UTF-8 is one, and so is decoding it with a replacement
/// character for what is not valid.
pub open spec fn reads_as(bytes: Seq<u8>, text: Seq<char>) -> bool
    decreases text.len(),
{
    if text.len() == 0 {
        bytes.len() == 0
    } else {
        exists|width: int|
            #[trigger] first_char(bytes, width, text[0]) && reads_as(
                bytes.skip(width),
                text.drop_first(),
            )
    }
}

/// Whether the first `width` bytes can stand for the character `c`.
pub open spec fn first_char(bytes: Seq<u8>, width: int, c: char) -> bool {
    &&& 1 <= width <= bytes.len()
    &&& if bytes[0] < 0x80 {
        width == 1 && c == bytes[0] as char
    } else {
        c >= '\u{80}' && forall|i: int| 0 <= i < width ==> #[trigger] bytes[i] >= 0x80
    }
}

/// An ASCII text stands at the start of the bytes, with no digit behind it,
/// exactly if it does at the start of the text that they are read as.
proof fn lemma_same_start(pattern: Seq<char>, bytes: Seq<u8>, text: Seq<char>)
    requires
        plain(pattern),
        reads_as(bytes, text),
    ensures
        stands_whole(pattern, as_chars(bytes), 0) == stands_whole(pattern, text, 0),
    decreases pattern.len(),
{
    let chars = as_chars(bytes);
    if pattern.len() == 0 {
        assert(chars.subrange(0, 0) =~= pattern);
        assert(text.subrange(0, 0) =~= pattern);
    } else if text.len() > 0 {
        let width = choose|width: int|
            #[trigger] first_char(bytes, width, text[0]) && reads_as(
                bytes.skip(width),
                text.drop_first(),
            );
        assert(chars[0] == bytes[0] as char);
        lemma_start_step(pattern, chars);
        lemma_start_step(pattern, text);
        if bytes[0] < 0x80 {
            lemma_same_start(pattern.drop_first(), bytes.skip(1), text.drop_first());
            assert(as_chars(bytes.skip(1)) =~= chars.drop_first());
        }
    }
}

/// A text stands at the start of another exactly if the first characters are
/// the same and the rest stands at the start of the rest.
proof fn lemma_start_step(pattern: Seq<char>, text: Seq<char>)
    requires
        pattern.len() > 0,
        text.len() > 0,
    ensures
        stands_whole(pattern, text, 0) == (pattern[0] == text[0] && stands_whole(
            pattern.drop_first(),
            text.drop_first(),
            0,
        )),
{
    let (tail, rest) = (pattern.drop_first(), text.drop_first());
    if stands_whole(pattern, text, 0) {
        let start = text.subrange(0, pattern.len() as int);
        assert(start[0] == text[0]);
        assert forall|i: int| 0 <= i < tail.len() implies rest.subrange(
            0,
            tail.len() as int,
        )[i] == tail[i] by {
            assert(start[i + 1] == pattern[i + 1]);
        }
        assert(rest.subrange(0, tail.len() as int) =~= tail);
    }
    if pattern[0] == text[0] && stands_whole(tail, rest, 0) {
        let start = rest.subrange(0, tail.len() as int);
        assert forall|i: int| 0 <= i < pattern.len() implies text.subrange(
            0,
            pattern.len() as int,
        )[i] == pattern[i] by {
            if i > 0 {
                assert(start[i - 1] == tail[i - 1]);
            }
        }
        assert(text.subrange(0, pattern.len() as int) =~= pattern);
    }
}

/// A position in a text, without the first `width` characters, is one that many
/// further in the whole.
proof fn lemma_occurs_further(pattern: Seq<char>, text: Seq<char>, width: int, at: int)
    requires
        0 <= width <= at <= text.len(),
    ensures
        stands_whole(pattern, text, at) == stands_whole(pattern, text.skip(width), at - width),
{
    if at + pattern.len() <= text.len() {
        assert(text.skip(width).subrange(at - width, at - width + pattern.len())
            =~= text.subrange(at, at + pattern.len()));
    }
}

/// An ASCII text stands somewhere in the bytes, with no digit behind it, exactly
/// if it does somewhere in the text that they are read as.
proof fn lemma_same_occurrence(pattern: Seq<char>, bytes: Seq<u8>, text: Seq<char>)
    requires
        pattern.len() > 0,
        plain(pattern),
        reads_as(bytes, text),
    ensures
        occurs_whole(pattern, as_chars(bytes)) == occurs_whole(pattern, text),
    decreases text.len(),
{
    let chars = as_chars(bytes);
    if text.len() > 0 {
        let width = choose|width: int|
            #[trigger] first_char(bytes, width, text[0]) && reads_as(
                bytes.skip(width),
                text.drop_first(),
            );
        let rest = text.drop_first();
        assert(rest =~= text.skip(1));
        assert(as_chars(bytes.skip(width)) =~= chars.skip(width));
        lemma_same_start(pattern, bytes, text);
        lemma_same_occurrence(pattern, bytes.skip(width), rest);
        if occurs_whole(pattern, chars) {
            let at = choose|at: int| stands_whole(pattern, chars, at);
            if at >= width {
                lemma_occurs_further(pattern, chars, width, at);
                assert(stands_whole(pattern, chars.skip(width), at - width));
                let later = choose|later: int| stands_whole(pattern, rest, later);
                lemma_occurs_further(pattern, text, 1, later + 1);
                assert(stands_whole(pattern, text, later + 1));
            } else if at > 0 {
                assert(chars.subrange(at, at + pattern.len())[0] == chars[at]);
                assert(chars[at] == bytes[at] as char);
                assert(pattern[0] < '\u{80}');
            }
        }
        if occurs_whole(pattern, text) {
            let at = choose|at: int| stands_whole(pattern, text, at);
            if at > 0 {
                lemma_occurs_further(pattern, text, 1, at);
                assert(stands_whole(pattern, rest, at - 1));
                let later = choose|later: int| stands_whole(pattern, chars.skip(width), later);
                lemma_occurs_further(pattern, chars, width, later + width);
                assert(stands_whole(pattern, chars, later + width));
            }
        }
    } else {
        assert forall|at: int| !stands_whole(pattern, chars, at) by {}
        assert forall|at: int| !stands_whole(pattern, text, at) by {}
    }
}

/// The start of the line that a position is on.
proof fn lemma_line_start(text: Seq<char>, at: int) -> (from: int)
    requires
        0 <= at <= text.len(),
    ensures
        0 <= from <= at,
        from == 0 || text[from - 1] == '\n',
        forall|i: int| from <= i < at ==> text[i] != '\n',
    decreases at,
{
    if at == 0 || text[at - 1] == '\n' {
        at
    } else {
        lemma_line_start(text, at - 1)
    }
}

/// The end of the line that a position is on.
proof fn lemma_line_end(text: Seq<char>, at: int) -> (to: int)
    requires
        0 <= at <= text.len(),
    ensures
        at <= to <= text.len(),
        to == text.len() || text[to] == '\n',
        forall|i: int| at <= i < to ==> text[i] != '\n',
    decreases text.len() - at,
{
    if at == text.len() || text[at] == '\n' {
        at
    } else {
        lemma_line_end(text, at + 1)
    }
}

/// A text without line breaks stands somewhere, with no digit behind it, exactly
/// if it does on some line.
proof fn lemma_occurs_on_line(pattern: Seq<char>, text: Seq<char>)
    requires
        plain(pattern),
    ensures
        occurs_whole(pattern, text) == exists|from: int, to: int|
            #[trigger] is_line(text, from, to) && occurs_whole(pattern, text.subrange(from, to)),
{
    if occurs_whole(pattern, text) {
        let at = choose|at: int| stands_whole(pattern, text, at);
        let from = lemma_line_start(text, at);
        let to = lemma_line_end(text, at + pattern.len());
        assert forall|i: int| from <= i < to implies text[i] != '\n' by {
            if at <= i < at + pattern.len() {
                assert(text.subrange(at, at + pattern.len())[i - at] == pattern[i - at]);
            }
        }
        assert(is_line(text, from, to));
        let line = text.subrange(from, to);
        assert(line.subrange(at - from, at - from + pattern.len()) =~= text.subrange(
            at,
            at + pattern.len(),
        ));
        assert(stands_whole(pattern, line, at - from));
    }
    if exists|from: int, to: int|
        #[trigger] is_line(text, from, to) && occurs_whole(pattern, text.subrange(from, to)) {
        let (from, to) = choose|from: int, to: int|
            #[trigger] is_line(text, from, to) && occurs_whole(pattern, text.subrange(from, to));
        let line = text.subrange(from, to);
        let at = choose|at: int| stands_whole(pattern, line, at);
        assert(line.subrange(at, at + pattern.len()) =~= text.subrange(
            from + at,
            from + at + pattern.len(),
        ));
        assert(stands_whole(pattern, text, from + at));
    }
}

/// Digits are ASCII.
proof fn lemma_digits_plain(number: nat, base: nat)
    requires
        2 <= base <= 16,
    ensures
        plain(digits(number, base)),
    decreases number,
{
    reveal_strlit("0123456789abcdef");
    if number >= base {
        vstd::arithmetic::div_mod::lemma_div_decreases(number as int, base as int);
        lemma_digits_plain(number / base, base);
    }
}

/// The way our rule is listed is ASCII, and a listing shows it exactly if it
/// stands somewhere in it.
proof fn lemma_lists_if_occurs_whole(listing: Seq<char>)
    ensures
        plain(rule_text(hexadecimal(MARK as nat))),
        plain(rule_text(decimal(MARK as nat))),
        rule_text(hexadecimal(MARK as nat)).len() > 0,
        rule_text(decimal(MARK as nat)).len() > 0,
        lists_our_rule(listing) == (occurs_whole(rule_text(hexadecimal(MARK as nat)), listing) || occurs_whole(
            rule_text(decimal(MARK as nat)),
            listing,
        )),
{
    reveal_strlit("fwmark ");
    reveal_strlit(" lookup ");
    reveal_strlit("0x");
    lemma_digits_plain(MARK as nat, 16);
    lemma_digits_plain(MARK as nat, 10);
    lemma_digits_plain(TABLE as nat, 10);
    lemma_occurs_on_line(rule_text(hexadecimal(MARK as nat)), listing);
    lemma_occurs_on_line(rule_text(decimal(MARK as nat)), listing);
}

/// However the bytes of a listing that are not ASCII are read, the listing shows
/// our rule or does not.
pub proof fn law_any_reading(bytes: Seq<u8>, text: Seq<char>)
    requires
        reads_as(bytes, text),
    ensures
        stale(Some(bytes)) == lists_our_rule(text),
{
    lemma_lists_if_occurs_whole(as_chars(bytes));
    lemma_lists_if_occurs_whole(text);
    lemma_same_occurrence(rule_text(hexadecimal(MARK as nat)), bytes, text);
    lemma_same_occurrence(rule_text(decimal(MARK as nat)), bytes, text);
}

/// Decoding valid UTF-8 is a way to read bytes.
proof fn lemma_decoding_reads(bytes: Seq<u8>)
    requires
        valid_utf8(bytes),
    ensures
        reads_as(bytes, decode_utf8(bytes)),
    decreases bytes.len(),
{
    if bytes.len() > 0 {
        let width = length_of_first_scalar(bytes);
        let text = decode_utf8(bytes);
        let rest = bytes.skip(width);
        assert(rest =~= pop_first_scalar(bytes));
        lemma_decoding_reads(rest);
        assert(text.drop_first() =~= decode_utf8(rest));
        let byte = bytes[0];
        assert(byte <= 0x7f ==> (byte & 0x7f) == byte) by (bit_vector);
        decode_utf8_first_scalar(bytes);
        assert(encode_scalar(text[0] as u32).len() == width);
        assert(first_char(bytes, width, text[0]));
    }
}

/// For output that is valid UTF-8, what counts is the text that it encodes.
pub proof fn law_listing_decoded(bytes: Seq<u8>)
    requires
        valid_utf8(bytes),
    ensures
        stale(Some(bytes)) == lists_our_rule(decode_utf8(bytes)),
{
    lemma_decoding_reads(bytes);
    law_any_reading(bytes, decode_utf8(bytes));
}

/// A listing shows our rule if one of its lines names it, whatever stands before
/// and after.
pub proof fn law_listed_rule_found(before: Seq<char>, line: Seq<char>, after: Seq<char>)
    requires
        names_our_rule(line),
    ensures
        lists_our_rule(before + seq!['\n'] + line + seq!['\n'] + after),
        lists_our_rule(line),
{
    let listing = before + seq!['\n'] + line + seq!['\n'] + after;
    lemma_lists_if_occurs_whole(listing);
    lemma_lists_if_occurs_whole(line);
    let pattern = if occurs_whole(rule_text(hexadecimal(MARK as nat)), line) {
        rule_text(hexadecimal(MARK as nat))
    } else {
        rule_text(decimal(MARK as nat))
    };
    let at = choose|at: int| stands_whole(pattern, line, at);
    let start = before.len() + 1 + at;
    assert(listing.subrange(start, start + pattern.len()) =~= line.subrange(
        at,
        at + pattern.len(),
    ));
    assert(stands_whole(pattern, listing, start));
}

/// The rule that the probe looks for is the one that the script is told to
/// install: the mark and the table are its second and third argument.
pub proof fn law_probe_fits_script(target: RulesReconcile, mode: RunningMode)
    ensures
        names_our_rule(
            "fwmark "@ + script_args(target, mode)[1] + " lookup "@ + script_args(target, mode)[2],
        ),
{
    let line = rule_text(hexadecimal(MARK as nat));
    assert(line.subrange(0, line.len() as int) =~= line);
    assert(stands_whole(line, line, 0));
}

/// A listed rule is ours exactly if both its mark and its table are: a rule of
/// another tool is never taken for ours, whatever its numbers begin with. The
/// priority and the selector before the mark hold no `w`.
pub proof fn law_only_our_rule(selector: Seq<char>, mark: nat, table: nat)
    requires
        !selector.contains('w'),
    ensures
        names_our_rule(
            selector + "fwmark "@ + hexadecimal(mark) + " lookup "@ + decimal(table),
        ) <==> mark == MARK && table == TABLE,
{
    let line = selector + "fwmark "@ + hexadecimal(mark) + " lookup "@ + decimal(table);
    let (ours, in_decimal) = (
        rule_text(hexadecimal(MARK as nat)),
        rule_text(decimal(MARK as nat)),
    );
    let (m, t) = (digits(mark, 16), digits(table, 10));
    reveal_strlit("fwmark ");
    reveal_strlit(" lookup ");
    reveal_strlit("0x");
    reveal_strlit("0123456789abcdef");
    assert(digits(255, 16) =~= seq!['f', 'f']) by {
        reveal_with_fuel(digits, 3);
    }
    assert(digits(255, 10) =~= seq!['2', '5', '5']) by {
        reveal_with_fuel(digits, 4);
    }
    assert(digits(100, 10) =~= seq!['1', '0', '0']) by {
        reveal_with_fuel(digits, 4);
    }
    assert(ours =~= "fwmark "@ + "0x"@ + seq!['f', 'f'] + " lookup "@ + seq!['1', '0', '0']);
    assert(in_decimal =~= "fwmark "@ + seq!['2', '5', '5'] + " lookup "@ + seq!['1', '0', '0']);
    lemma_digits_range(mark, 16);
    lemma_digits_range(table, 10);
    let start = selector.len() as int;
    if mark == MARK && table == TABLE {
        assert(line.subrange(start, start + ours.len()) =~= ours);
        assert(stands_whole(ours, line, start));
    }
    if names_our_rule(line) {
        let pattern = if occurs_whole(ours, line) {
            ours
        } else {
            in_decimal
        };
        let at = choose|at: int| stands_whole(pattern, line, at);
        let part = line.subrange(at, at + pattern.len());
        assert forall|i: int| 0 <= i < pattern.len() implies line[at + i] == pattern[i] by {
            assert(part[i] == pattern[i]);
        }
        assert(pattern[1] == 'w');
        assert(at == start) by {
            lemma_only_w(selector, mark, table, at + 1);
        }
        // Behind "fwmark " the line goes on with "0x", the mark and " lookup ".
        assert(line[at + 7] == '0' && in_decimal[7] == '2');
        assert(pattern == ours);
        assert(ours[9] == 'f' && ours[10] == 'f' && ours[11] == ' ');
        assert(ours[19] == '1' && ours[20] == '0' && ours[21] == '0');
        assert forall|i: int| 0 <= i < m.len() implies line[at + 9 + i] == m[i] by {}
        assert(line[at + 9 + m.len()] == ' ');
        if m.len() == 1 {
            assert(line[at + 10] == ours[10]);
        } else if m.len() > 2 {
            assert(line[at + 11] == ours[11]);
            assert(m[2] == ' ');
        }
        assert(m[0] == ours[9] && m[1] == ours[10]);
        assert(m =~= seq!['f', 'f']);
        law_digits_tell_apart(mark, 255, 16);
        assert forall|i: int| 0 <= i < t.len() implies line[at + 19 + i] == t[i] by {}
        assert(line.len() == at + 19 + t.len());
        assert(t.len() == 3);
        assert(t =~= seq!['1', '0', '0']);
        law_digits_tell_apart(table, 100, 10);
    }
}

/// Digits are decimal digits or, in bases above 10, letters up to `f`.
proof fn lemma_digits_range(number: nat, base: nat)
    requires
        2 <= base <= 16,
    ensures
        digits(number, base).len() >= 1,
        forall|i: int|
            0 <= i < digits(number, base).len() ==> {
                let c = #[trigger] digits(number, base)[i];
                '0' <= c <= '9' || base > 10 && 'a' <= c <= 'f'
            },
    decreases number,
{
    reveal_strlit("0123456789abcdef");
    if number >= base {
        vstd::arithmetic::div_mod::lemma_div_decreases(number as int, base as int);
        vstd::arithmetic::div_mod::lemma_mod_bound(number as int, base as int);
        lemma_digits_range(number / base, base);
    }
}

/// The only `w` of a listed rule is that of `fwmark`.
proof fn lemma_only_w(selector: Seq<char>, mark: nat, table: nat, at: int)
    requires
        !selector.contains('w'),
        ({
            let line = selector + "fwmark "@ + hexadecimal(mark) + " lookup "@ + decimal(table);
            0 <= at < line.len() && line[at] == 'w'
        }),
    ensures
        at == selector.len() + 1,
{
    let line = selector + "fwmark "@ + hexadecimal(mark) + " lookup "@ + decimal(table);
    let (m, t) = (digits(mark, 16), digits(table, 10));
    reveal_strlit("fwmark ");
    reveal_strlit(" lookup ");
    reveal_strlit("0x");
    lemma_digits_range(mark, 16);
    lemma_digits_range(table, 10);
    let fixed = selector.len() + 9;
    if at < selector.len() {
        assert(selector[at] == 'w');
    } else if at >= fixed + m.len() + 8 {
        assert(line[at] == t[at - fixed - m.len() - 8]);
    } else if at >= fixed + m.len() {
        assert(line[at] == " lookup "@[at - fixed - m.len()]);
    } else if at >= fixed {
        assert(line[at] == m[at - fixed]);
    }
}

/// The two ways in which our rule is listed.
proof fn lemma_rule_texts()
    ensures
        rule_text(hexadecimal(MARK as nat)) == "fwmark 0xff lookup 100"@,
        rule_text(decimal(MARK as nat)) == "fwmark 255 lookup 100"@,
{
    reveal_strlit("fwmark ");
    reveal_strlit(" lookup ");
    reveal_strlit("0x");
    reveal_strlit("0123456789abcdef");
    reveal_strlit("fwmark 0xff lookup 100");
    reveal_strlit("fwmark 255 lookup 100");
    assert(digits(255, 16) =~= seq!['f', 'f']) by {
        reveal_with_fuel(digits, 3);
    }
    assert(digits(255, 10) =~= seq!['2', '5', '5']) by {
        reveal_with_fuel(digits, 4);
    }
    assert(digits(100, 10) =~= seq!['1', '0', '0']) by {
        reveal_with_fuel(digits, 4);
    }
    assert(rule_text(hexadecimal(MARK as nat)) =~= "fwmark 0xff lookup 100"@);
    assert(rule_text(decimal(MARK as nat)) =~= "fwmark 255 lookup 100"@);
}

/// A line names our rule exactly if it is something, `fwmark 0xff lookup 100` or
/// `fwmark 255 lookup 100`, and something that does not start with a digit.
pub proof fn law_line_of_our_rule(line: Seq<char>)
    ensures
        names_our_rule(line) <==> {
            ||| exists|before: Seq<char>, after: Seq<char>|
                line == #[trigger] (before + "fwmark 0xff lookup 100"@ + after) && (after.len() == 0
                    || !('0' <= after[0] <= '9'))
            ||| exists|before: Seq<char>, after: Seq<char>|
                line == #[trigger] (before + "fwmark 255 lookup 100"@ + after) && (after.len() == 0
                    || !('0' <= after[0] <= '9'))
        },
{
    lemma_rule_texts();
    law_occurs_whole("fwmark 0xff lookup 100"@, line);
    law_occurs_whole("fwmark 255 lookup 100"@, line);
}

/// A listing shows our rule exactly if one of the two texts stands in it, with
/// no digit behind. Neither holds a line break, so that is on one line.
pub proof fn law_listing_of_our_rule(listing: Seq<char>)
    ensures
        lists_our_rule(listing) <==> {
            ||| exists|before: Seq<char>, after: Seq<char>|
                listing == #[trigger] (before + "fwmark 0xff lookup 100"@ + after) && (after.len()
                    == 0 || !('0' <= after[0] <= '9'))
            ||| exists|before: Seq<char>, after: Seq<char>|
                listing == #[trigger] (before + "fwmark 255 lookup 100"@ + after) && (after.len()
                    == 0 || !('0' <= after[0] <= '9'))
        },
{
    lemma_lists_if_occurs_whole(listing);
    lemma_rule_texts();
    law_occurs_whole("fwmark 0xff lookup 100"@, listing);
    law_occurs_whole("fwmark 255 lookup 100"@, listing);
}

/// Rules are stale exactly if the bytes that `ip rule` wrote are something, one
/// of the two texts, and something that does not start with a digit. Without
/// output none are.
pub proof fn law_stale_bytes(bytes: Seq<u8>)
    ensures
        !stale(None),
        stale(Some(bytes)) <==> {
            ||| exists|before: Seq<u8>, after: Seq<u8>|
                bytes == #[trigger] (before + encode_utf8("fwmark 0xff lookup 100"@) + after) && (
                after.len() == 0 || !(0x30 <= after[0] <= 0x39))
            ||| exists|before: Seq<u8>, after: Seq<u8>|
                bytes == #[trigger] (before + encode_utf8("fwmark 255 lookup 100"@) + after) && (
                after.len() == 0 || !(0x30 <= after[0] <= 0x39))
        },
{
    lemma_lists_if_occurs_whole(as_chars(bytes));
    lemma_rule_texts();
    lemma_stands_in_bytes("fwmark 0xff lookup 100"@, bytes);
    lemma_stands_in_bytes("fwmark 255 lookup 100"@, bytes);
}

/// No character comes before the first one.
proof fn lemma_least_char(c: char)
    ensures
        '\0' <= c,
{
}

/// An ASCII text stands whole among the characters of bytes exactly if its own
/// bytes do.
proof fn lemma_stands_in_bytes(pattern: Seq<char>, bytes: Seq<u8>)
    requires
        plain(pattern),
    ensures
        occurs_whole(pattern, as_chars(bytes)) <==> exists|before: Seq<u8>, after: Seq<u8>|
            bytes == #[trigger] (before + encode_utf8(pattern) + after) && (after.len() == 0 || !(
            0x30 <= after[0] <= 0x39)),
{
    let (chars, encoded) = (as_chars(bytes), encode_utf8(pattern));
    assert forall|i: int| 0 <= i < pattern.len() implies '\0' <= #[trigger] pattern[i]
        <= '\u{7f}' by {
        lemma_least_char(pattern[i]);
    }
    is_ascii_chars_encode_utf8(pattern);
    if occurs_whole(pattern, chars) {
        let at = choose|at: int| stands_whole(pattern, chars, at);
        let part = chars.subrange(at, at + pattern.len());
        let (before, after) = (bytes.take(at), bytes.skip(at + pattern.len()));
        let whole = before + encoded + after;
        assert forall|i: int| 0 <= i < bytes.len() implies bytes[i] == whole[i] by {
            if at <= i < at + pattern.len() {
                assert(part[i - at] == pattern[i - at]);
                assert(chars[i] == bytes[i] as char);
                assert(encoded[i - at] == pattern[i - at] as u8);
            }
        }
        assert(bytes =~= whole);
        if after.len() > 0 {
            assert(chars[at + pattern.len()] == after[0] as char);
        }
    }
    if exists|before: Seq<u8>, after: Seq<u8>|
        bytes == #[trigger] (before + encoded + after) && (after.len() == 0 || !(0x30 <= after[0]
            <= 0x39)) {
        let (before, after) = choose|before: Seq<u8>, after: Seq<u8>|
            bytes == #[trigger] (before + encoded + after) && (after.len() == 0 || !(0x30
                <= after[0] <= 0x39));
        let at = before.len() as int;
        let part = chars.subrange(at, at + pattern.len());
        assert forall|i: int| 0 <= i < pattern.len() implies part[i] == pattern[i] by {
            assert(bytes[at + i] == encoded[i]);
            assert(chars[at + i] == bytes[at + i] as char);
        }
        assert(part =~= pattern);
        if after.len() > 0 {
            assert(bytes[at + pattern.len()] == after[0]);
            assert(chars[at + pattern.len()] == after[0] as char);
        }
        assert(stands_whole(pattern, chars, at));
    }
}

} // verus!
