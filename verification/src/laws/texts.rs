//! Laws on texts: numerals, and where a text is cut.
use vstd::prelude::*;

use crate::text::begins_with;
use crate::text::decimal;
use crate::text::digit_char;
use crate::text::digits_value;
use crate::text::first_index;
use crate::text::is_white_space;
use crate::text::low_hex_digit;
use crate::text::parsed_u32;
use crate::text::precedes;
use crate::text::split;
use crate::text::trimmed;
use crate::text::trimmed_back;
use crate::text::trimmed_front;
use crate::text::without_trailing;

verus! {

// ---------------------------------------------------------------------------
// Numerals
// ---------------------------------------------------------------------------

/// A numeral is made of digits, has no leading zero, and reads back as its
/// number.
pub proof fn law_numeral_reads_back(n: nat)
    ensures
        digits_value(decimal(n)) == Some(n),
        decimal(n).len() > 0,
        forall|i: int| 0 <= i < decimal(n).len() ==> '0' <= #[trigger] decimal(n)[i] <= '9',
        n > 0 ==> decimal(n)[0] != '0',
    decreases n,
{
    let s = decimal(n);
    if n < 10 {
        assert(s.drop_last() =~= Seq::empty());
        assert(s.last() == digit_char(n));
        reveal_with_fuel(digits_value, 2);
    } else {
        law_numeral_reads_back(n / 10);
        assert(s.drop_last() =~= decimal(n / 10));
        assert(s.last() == digit_char(n % 10));
        assert(10 * (n / 10) + n % 10 == n);
        assert forall|i: int| 0 <= i < s.len() implies '0' <= #[trigger] s[i] <= '9' by {
            if i < s.len() - 1 {
                assert(s[i] == decimal(n / 10)[i]);
            }
        }
        assert(s[0] == decimal(n / 10)[0]);
    }
}

/// The numeral of a number below 2^32 is read as that number, with or without a
/// plus sign before it.
pub proof fn law_number_is_read_back(n: u32)
    ensures
        parsed_u32(decimal(n as nat)) == Some(n),
        parsed_u32(seq!['+'] + decimal(n as nat)) == Some(n),
{
    law_numeral_reads_back(n as nat);
    let digits = decimal(n as nat);
    assert('0' <= digits[0] <= '9');
    assert((seq!['+'] + digits).skip(1) =~= digits);
}

/// Nothing is a number that is empty, that is a sign alone, that holds anything
/// but digits behind an optional plus sign, or that is over 2^32 - 1.
pub proof fn law_other_texts_are_no_numbers(s: Seq<char>, i: int, n: nat)
    ensures
        parsed_u32(Seq::<char>::empty()) is None,
        parsed_u32(seq!['+']) is None,
        1 <= i < s.len() && !('0' <= s[i] <= '9') ==> parsed_u32(s) is None,
        s.len() > 0 && s[0] != '+' && !('0' <= s[0] <= '9') ==> parsed_u32(s) is None,
        n > u32::MAX ==> parsed_u32(decimal(n)) is None,
{
    assert(seq!['+'].skip(1) =~= Seq::empty());
    if 1 <= i < s.len() && !('0' <= s[i] <= '9') {
        assert(s.skip(1)[i - 1] == s[i]);
        lemma_digits_only(s.skip(1), i - 1);
        lemma_digits_only(s, i);
    }
    if s.len() > 0 && s[0] != '+' && !('0' <= s[0] <= '9') {
        lemma_digits_only(s, 0);
    }
    law_numeral_reads_back(n);
    assert('0' <= decimal(n)[0] <= '9');
}

/// Where something is no digit there is no number.
proof fn lemma_digits_only(s: Seq<char>, i: int)
    requires
        0 <= i < s.len(),
        !('0' <= s[i] <= '9'),
    ensures
        digits_value(s) is None,
    decreases s.len(),
{
    if i < s.len() - 1 {
        lemma_digits_only(s.drop_last(), i);
    }
}

/// A numeral has no more than `k` digits where its number is below the `k`-th
/// power of ten.
pub proof fn law_numeral_length(n: nat, k: nat)
    requires
        k > 0,
        n < power_of_ten(k),
    ensures
        decimal(n).len() <= k,
    decreases k,
{
    if n >= 10 {
        if k == 1 {
            reveal_with_fuel(power_of_ten, 2);
        } else {
            law_numeral_length(n / 10, (k - 1) as nat);
        }
    }
}

/// Powers of ten.
pub open spec fn power_of_ten(k: nat) -> nat
    decreases k,
{
    if k == 0 {
        1
    } else {
        10 * power_of_ten((k - 1) as nat)
    }
}

/// The hexadecimal digits in lower case.
pub proof fn law_hex_digits(n: nat)
    requires
        n < 16,
    ensures
        low_hex_digit(n) == "0123456789abcdef"@[n as int],
{
    reveal_strlit("0123456789abcdef");
    assert("0123456789abcdef"@ =~= seq![
        '0',
        '1',
        '2',
        '3',
        '4',
        '5',
        '6',
        '7',
        '8',
        '9',
        'a',
        'b',
        'c',
        'd',
        'e',
        'f',
    ]);
}

// ---------------------------------------------------------------------------
// Where a text is cut
// ---------------------------------------------------------------------------

/// The first place of a character: it stands there, and nowhere before; and
/// where there is no such place, it stands nowhere.
pub proof fn law_first_index(s: Seq<char>, c: char)
    ensures
        first_index(s, c) <= s.len(),
        first_index(s, c) < s.len() ==> s[first_index(s, c) as int] == c,
        forall|i: int| 0 <= i < first_index(s, c) ==> #[trigger] s[i] != c,
    decreases s.len(),
{
    if s.len() > 0 && s[0] != c {
        let rest = s.drop_first();
        law_first_index(rest, c);
        assert forall|i: int| 0 <= i < first_index(s, c) implies #[trigger] s[i] != c by {
            if i > 0 {
                assert(s[i] == rest[i - 1]);
            }
        }
    }
}

/// A text without the character, that character and anything behind it: the
/// first place is the end of the former.
pub proof fn law_first_index_behind(front: Seq<char>, c: char, rest: Seq<char>)
    requires
        !front.contains(c),
    ensures
        first_index(front + seq![c] + rest, c) == front.len(),
{
    let s = front + seq![c] + rest;
    law_first_index(s, c);
    let at = first_index(s, c) as int;
    if at < front.len() {
        assert(s[at] == front[at]);
        assert(front.contains(c));
    }
    assert(s[front.len() as int] == c);
}

/// A text without the character is not cut.
pub proof fn law_nothing_to_cut(s: Seq<char>, sep: char)
    requires
        !s.contains(sep),
    ensures
        first_index(s, sep) == s.len(),
        split(s, sep) == seq![s],
{
    law_first_index(s, sep);
    let at = first_index(s, sep) as int;
    if at < s.len() {
        assert(s[at] == sep);
    }
}

/// What was put behind one separator after another comes apart into what was
/// put together.
pub proof fn law_split_undoes_joining(front: Seq<char>, sep: char, rest: Seq<char>)
    requires
        !front.contains(sep),
    ensures
        split(front + seq![sep] + rest, sep) == seq![front] + split(rest, sep),
{
    let s = front + seq![sep] + rest;
    law_first_index_behind(front, sep, rest);
    let at = front.len() as int;
    assert(s.take(at) =~= front);
    assert(s.skip(at + 1) =~= rest);
}

/// No piece of a text holds the separator, and there is at least one piece.
pub proof fn law_pieces_are_free_of_the_separator(s: Seq<char>, sep: char)
    ensures
        split(s, sep).len() >= 1,
        forall|i: int| 0 <= i < split(s, sep).len() ==> !(#[trigger] split(s, sep)[i]).contains(sep),
    decreases s.len(),
{
    law_first_index(s, sep);
    let at = first_index(s, sep) as int;
    if at < s.len() {
        let rest = s.skip(at + 1);
        law_pieces_are_free_of_the_separator(rest, sep);
        let all = split(s, sep);
        assert forall|i: int| 0 <= i < all.len() implies !(#[trigger] all[i]).contains(sep) by {
            if i == 0 {
                assert(all[0] == s.take(at));
                if s.take(at).contains(sep) {
                    let j = choose|j: int| 0 <= j < at && s.take(at)[j] == sep;
                    assert(s[j] == sep);
                }
            } else {
                assert(all[i] == split(rest, sep)[i - 1]);
            }
        }
    } else if s.contains(sep) {
        let j = choose|j: int| 0 <= j < s.len() && s[j] == sep;
        assert(s[j] != sep);
    }
}

// ---------------------------------------------------------------------------
// White space
// ---------------------------------------------------------------------------

/// Whether a text neither begins nor ends with white space.
pub open spec fn is_tight(s: Seq<char>) -> bool {
    s.len() > 0 ==> !is_white_space(s[0]) && !is_white_space(s.last())
}

/// Whether a text is white space throughout.
pub open spec fn is_blank(s: Seq<char>) -> bool {
    forall|i: int| 0 <= i < s.len() ==> is_white_space(#[trigger] s[i])
}

/// White space around a text is taken away, all of it, and nothing else.
pub proof fn law_trimming_takes_white_space_only(before: Seq<char>, s: Seq<char>, behind: Seq<char>)
    requires
        is_blank(before),
        is_tight(s),
        is_blank(behind),
    ensures
        trimmed(before + s + behind) == s,
{
    if s.len() == 0 {
        let all = before + s + behind;
        assert(is_blank(all));
        lemma_blank_front(all, Seq::empty());
        assert(all + Seq::empty() =~= all);
        assert(s =~= Seq::empty());
    } else {
        lemma_blank_front(before, s + behind);
        assert(before + (s + behind) =~= before + s + behind);
        assert((s + behind)[0] == s[0]);
        lemma_blank_back(s, behind);
    }
}

/// Leading white space is taken away.
proof fn lemma_blank_front(before: Seq<char>, s: Seq<char>)
    requires
        is_blank(before),
        s.len() > 0 ==> !is_white_space(s[0]),
    ensures
        trimmed_front(before + s) == s,
    decreases before.len(),
{
    if before.len() == 0 {
        assert(before + s =~= s);
    } else {
        assert(is_white_space(before[0]));
        let rest = before.drop_first();
        assert forall|i: int| 0 <= i < rest.len() implies is_white_space(#[trigger] rest[i]) by {
            assert(rest[i] == before[i + 1]);
        }
        lemma_blank_front(rest, s);
        assert((before + s).drop_first() =~= rest + s);
    }
}

/// Trailing white space is taken away.
proof fn lemma_blank_back(s: Seq<char>, behind: Seq<char>)
    requires
        is_blank(behind),
        s.len() > 0 ==> !is_white_space(s.last()),
    ensures
        trimmed_back(s + behind) == s,
    decreases behind.len(),
{
    if behind.len() == 0 {
        assert(s + behind =~= s);
    } else {
        assert(is_white_space(behind.last()));
        lemma_blank_back(s, behind.drop_last());
        assert((s + behind).drop_last() =~= s + behind.drop_last());
    }
}

/// The characters of ASCII that count as white space.
pub proof fn law_ascii_white_space(c: char)
    requires
        c <= '\u{7f}',
    ensures
        is_white_space(c) <==> (c == ' ' || c == '\t' || c == '\n' || c == '\u{b}' || c == '\u{c}' || c == '\r'),
{
}

/// Repetitions of a character at the end are taken away, all of them, and
/// nothing else.
pub proof fn law_trailing_repetitions_go(s: Seq<char>, c: char, tail: Seq<char>)
    requires
        s.len() > 0 ==> s.last() != c,
        forall|i: int| 0 <= i < tail.len() ==> #[trigger] tail[i] == c,
    ensures
        without_trailing(s + tail, c) == s,
    decreases tail.len(),
{
    if tail.len() == 0 {
        assert(s + tail =~= s);
    } else {
        law_trailing_repetitions_go(s, c, tail.drop_last());
        assert((s + tail).drop_last() =~= s + tail.drop_last());
        assert((s + tail).last() == tail.last());
    }
}

// ---------------------------------------------------------------------------
// Beginnings and order
// ---------------------------------------------------------------------------

/// A text begins with what it was put behind, and with nothing that differs
/// from it anywhere.
pub proof fn law_beginnings(prefix: Seq<char>, rest: Seq<char>, other: Seq<char>, i: int)
    ensures
        begins_with(prefix + rest, prefix),
        0 <= i < other.len() && i < (prefix + rest).len() && other[i] != (prefix + rest)[i] ==> !begins_with(
            prefix + rest,
            other,
        ),
        other.len() > (prefix + rest).len() ==> !begins_with(prefix + rest, other),
{
    let s = prefix + rest;
    assert(s.take(prefix.len() as int) =~= prefix);
    if 0 <= i < other.len() && i < s.len() && other[i] != s[i] && begins_with(s, other) {
        assert(s.take(other.len() as int)[i] == s[i]);
    }
}

/// Of two texts with a common beginning, the one whose next character is lower
/// comes first, and a text comes before what it begins.
pub proof fn law_order_is_by_the_first_difference(
    common: Seq<char>,
    a: char,
    b: char,
    rest_of_a: Seq<char>,
    rest_of_b: Seq<char>,
)
    requires
        a < b,
    ensures
        precedes(common + seq![a] + rest_of_a, common + seq![b] + rest_of_b),
        precedes(common, common + seq![b] + rest_of_b),
    decreases common.len(),
{
    let x = common + seq![a] + rest_of_a;
    let y = common + seq![b] + rest_of_b;
    if common.len() > 0 {
        let rest = common.drop_first();
        law_order_is_by_the_first_difference(rest, a, b, rest_of_a, rest_of_b);
        assert(x.drop_first() =~= rest + seq![a] + rest_of_a);
        assert(y.drop_first() =~= rest + seq![b] + rest_of_b);
    }
}

} // verus!
