//! The duration grammar: text of the form `M` or `H:M`, validated against
//! the elapsed time that is available.

use vstd::prelude::*;
use vstd::std_specs::iter::IteratorSpec;
use vstd::string::StringExecFns;

verus! {

/// Seconds in one minute.
pub const SECONDS_PER_MINUTE: u64 = 60;

/// Seconds in one hour.
pub const SECONDS_PER_HOUR: u64 = 3600;

/// `c` is one of the ten ASCII decimal digits.
pub open spec fn is_digit(c: char) -> bool {
    '0' <= c <= '9'
}

/// The number that the digit `c` stands for.
pub open spec fn digit_value(c: char) -> nat
    recommends
        is_digit(c),
{
    (c as int - '0' as int) as nat
}

/// `s` is a non-empty run of decimal digits.
pub open spec fn is_numeral(s: Seq<char>) -> bool {
    s.len() > 0 && forall|i: int| 0 <= i < s.len() ==> is_digit(#[trigger] s[i])
}

/// The number that a run of decimal digits denotes, most significant digit
/// first. Leading zeros are allowed and do not change the value.
pub open spec fn numeral_value(s: Seq<char>) -> nat
    decreases s.len(),
{
    if s.len() == 0 {
        0
    } else {
        numeral_value(s.drop_last()) * 10 + digit_value(s.last())
    }
}

/// What reading `s` as a number gives: its value, where `s` is a numeral
/// whose value fits in `u64`.
pub open spec fn numeral_in_range(s: Seq<char>) -> Option<u64> {
    if is_numeral(s) && numeral_value(s) <= u64::MAX {
        Some(numeral_value(s) as u64)
    } else {
        None
    }
}

/// Position of the first `:` in `text`, or `text.len()` where there is none.
pub open spec fn colon_index(text: Seq<char>) -> int
    decreases text.len(),
{
    if text.len() == 0 || text[0] == ':' {
        0
    } else {
        1 + colon_index(text.drop_first())
    }
}

/// The hours field: what stands before the first `:`, if there is a `:`.
pub open spec fn hours_field(text: Seq<char>) -> Option<Seq<char>> {
    let k = colon_index(text);
    if k < text.len() {
        Some(text.subrange(0, k))
    } else {
        None
    }
}

/// The minutes field: what stands after the first `:`, or the whole text
/// where there is no `:`. A second `:` therefore lands in this field and
/// keeps it from being a numeral.
pub open spec fn minutes_field(text: Seq<char>) -> Seq<char> {
    let k = colon_index(text);
    if k < text.len() {
        text.subrange(k + 1, text.len() as int)
    } else {
        text
    }
}

/// The rule on the minutes field: below sixty, and, while the bound has not
/// reached a whole hour, no more than the bound's whole minutes.
pub open spec fn minutes_allowed(minutes: nat, bound: u64) -> bool {
    minutes < 60 && (bound / SECONDS_PER_HOUR == 0 ==> minutes <= bound / SECONDS_PER_MINUTE)
}

/// The rule on the hours field: no more than the bound's whole hours.
pub open spec fn hours_allowed(hours: nat, bound: u64) -> bool {
    hours <= bound / SECONDS_PER_HOUR
}

/// The duration in seconds that `text` asks for under `bound`, or `None`
/// where the text is refused.
///
/// Empty text asks for the whole bound. Otherwise the minutes field must be
/// a numeral that `minutes_allowed` accepts, the hours field, if present, a
/// numeral that `hours_allowed` accepts, and the sum must fit in `u64`.
pub open spec fn parsed_duration(text: Seq<char>, bound: u64) -> Option<u64> {
    if text.len() == 0 {
        Some(bound)
    } else {
        let minutes = minutes_field(text);
        if !is_numeral(minutes) || !minutes_allowed(numeral_value(minutes), bound) {
            None
        } else {
            match hours_field(text) {
                None => Some((numeral_value(minutes) * 60) as u64),
                Some(hours) => {
                    let total = numeral_value(hours) * 3600 + numeral_value(minutes) * 60;
                    if !is_numeral(hours) || !hours_allowed(numeral_value(hours), bound) || total
                        > u64::MAX {
                        None
                    } else {
                        Some(total as u64)
                    }
                },
            }
        }
    }
}

/// A numeral's value is at least the value of each of its prefixes.
pub proof fn lemma_numeral_prefix(s: Seq<char>, k: int)
    requires
        0 <= k <= s.len(),
    ensures
        numeral_value(s.subrange(0, k)) <= numeral_value(s),
    decreases s.len(),
{
    if k == s.len() {
        assert(s.subrange(0, k) =~= s);
    } else {
        lemma_numeral_prefix(s.drop_last(), k);
        assert(s.drop_last().subrange(0, k) =~= s.subrange(0, k));
    }
}

/// `colon_index` lies within the text, no `:` stands before it, and a `:`
/// stands at it unless it is the end of the text.
pub proof fn lemma_colon_index_is_first(text: Seq<char>)
    ensures
        0 <= colon_index(text) <= text.len(),
        forall|j: int| 0 <= j < colon_index(text) ==> text[j] != ':',
        colon_index(text) < text.len() ==> text[colon_index(text)] == ':',
    decreases text.len(),
{
    if text.len() > 0 && text[0] != ':' {
        let rest = text.drop_first();
        lemma_colon_index_is_first(rest);
        assert forall|j: int| 0 <= j < colon_index(text) implies text[j] != ':' by {
            if j > 0 {
                assert(text[j] == rest[j - 1]);
            }
        }
    }
}

/// At most one `:` is allowed: a text with two of them is refused, whatever
/// stands around them.
pub proof fn lemma_second_colon_refused(text: Seq<char>, first: int, second: int, bound: u64)
    requires
        0 <= first < second < text.len(),
        text[first] == ':',
        text[second] == ':',
    ensures
        parsed_duration(text, bound) is None,
{
    lemma_colon_index_is_first(text);
    let k = colon_index(text);
    assert(k <= first);
    let minutes = minutes_field(text);
    assert(minutes[second - k - 1] == ':');
    assert(!is_digit(minutes[second - k - 1]));
}

/// What the two field rules make of the bound: a parsed duration is a whole
/// number of minutes and has no more whole hours than the bound; under a
/// bound of less than an hour it does not exceed the bound. With an hour or
/// more in the bound it can exceed the bound by less than an hour.
pub proof fn lemma_parsed_duration_near_bound(text: Seq<char>, bound: u64)
    requires
        text.len() > 0,
        parsed_duration(text, bound) is Some,
    ensures
        parsed_duration(text, bound).unwrap() % 60 == 0,
        parsed_duration(text, bound).unwrap() / SECONDS_PER_HOUR <= bound / SECONDS_PER_HOUR,
        bound < SECONDS_PER_HOUR ==> parsed_duration(text, bound).unwrap() <= bound,
        parsed_duration(text, bound).unwrap() < bound + SECONDS_PER_HOUR,
{
    let minutes = numeral_value(minutes_field(text));
    assert(minutes < 60);
    match hours_field(text) {
        None => {},
        Some(hours_text) => {
            let hours = numeral_value(hours_text);
            assert(hours <= bound / 3600);
            assert(hours * 3600 + minutes * 60 <= u64::MAX);
            if bound < 3600 {
                assert(hours == 0);
            }
        },
    }
}

/// The characters of `text`, in order.
pub fn chars_of(text: &str) -> (chars: Vec<char>)
    ensures
        chars@ == text@,
{
    broadcast use vstd::string::group_string_axioms;

    let mut chars: Vec<char> = Vec::new();
    let mut it = text.chars();
    loop
        invariant
            it.obeys_prophetic_iter_laws(),
            it.decrease() is Some,
            chars@ + it.remaining() == text@,
        decreases it.decrease()->0,
    {
        let ghost taken = chars@;
        let ghost rest = it.remaining();
        match it.next() {
            Some(c) => {
                chars.push(c);
                assert(chars@ + it.remaining() =~= taken + rest);
            },
            None => {
                assert(taken + rest =~= taken);
                return chars;
            },
        }
    }
}

/// `colon_index` is the one position before which no `:` stands and at which
/// either a `:` stands or the text ends.
pub proof fn lemma_colon_index(text: Seq<char>, k: int)
    requires
        0 <= k <= text.len(),
        forall|j: int| 0 <= j < k ==> text[j] != ':',
        k < text.len() ==> text[k] == ':',
    ensures
        colon_index(text) == k,
    decreases k,
{
    if k > 0 {
        let rest = text.drop_first();
        assert forall|j: int| 0 <= j < k - 1 implies rest[j] != ':' by {
            assert(rest[j] == text[j + 1]);
        }
        lemma_colon_index(rest, k - 1);
    }
}

/// Position of the first `:` in `chars`, or its length where there is none.
pub fn find_colon(chars: &Vec<char>) -> (k: usize)
    ensures
        k == colon_index(chars@),
        k <= chars.len(),
{
    let mut k: usize = 0;
    while k < chars.len() && chars[k] != ':'
        invariant
            k <= chars.len(),
            forall|j: int| 0 <= j < k ==> chars@[j] != ':',
        decreases chars.len() - k,
    {
        k += 1;
    }
    proof {
        lemma_colon_index(chars@, k as int);
    }
    k
}

/// Reads `chars[from..to]` as a numeral. `None` where that stretch is not a
/// numeral, and also where its value does not fit in `u64`.
pub fn read_numeral(chars: &Vec<char>, from: usize, to: usize) -> (value: Option<u64>)
    requires
        from <= to <= chars.len(),
    ensures
        value == numeral_in_range(chars@.subrange(from as int, to as int)),
{
    let ghost field = chars@.subrange(from as int, to as int);
    if from == to {
        return None;
    }
    let mut acc: u64 = 0;
    let mut i: usize = from;
    while i < to
        invariant
            from <= i <= to <= chars.len(),
            field == chars@.subrange(from as int, to as int),
            forall|j: int| 0 <= j < i - from ==> is_digit(#[trigger] field[j]),
            acc == numeral_value(field.subrange(0, i - from)),
        decreases to - i,
    {
        let c = chars[i];
        assert(c == field[i - from]);
        if c < '0' || c > '9' {
            return None;
        }
        let digit: u64 = (c as u32 - '0' as u32) as u64;
        proof {
            let longer = field.subrange(0, i - from + 1);
            assert(longer.drop_last() =~= field.subrange(0, i - from));
            assert(longer.last() == c);
            assert(numeral_value(longer) == acc * 10 + digit);
            lemma_numeral_prefix(field, i - from + 1);
        }
        if acc > (u64::MAX - digit) / 10 {
            return None;
        }
        acc = acc * 10 + digit;
        i += 1;
    }
    assert(field.subrange(0, to - from) =~= field);
    Some(acc)
}

/// Parses `text` as a duration in seconds, given the elapsed time `bound`
/// that is available. Any violation of the grammar or of its rules refuses
/// the whole text: nothing is clamped.
pub fn parse_duration(text: &str, bound: u64) -> (duration: Option<u64>)
    ensures
        duration == parsed_duration(text@, bound),
{
    let chars = chars_of(text);
    let n = chars.len();
    if n == 0 {
        return Some(bound);
    }
    let k = find_colon(&chars);
    let minutes_from: usize = if k < n { k + 1 } else { 0 };
    assert(chars@.subrange(0, n as int) =~= chars@);
    let minutes = match read_numeral(&chars, minutes_from, n) {
        Some(m) => m,
        None => { return None; },
    };
    if minutes >= 60 || (bound / SECONDS_PER_HOUR < 1 && minutes > bound / SECONDS_PER_MINUTE) {
        return None;
    }
    let minute_seconds: u64 = minutes * SECONDS_PER_MINUTE;
    if k == n {
        return Some(minute_seconds);
    }
    let hours = match read_numeral(&chars, 0, k) {
        Some(h) => h,
        None => { return None; },
    };
    if hours > bound / SECONDS_PER_HOUR {
        return None;
    }
    let hour_seconds: u64 = hours * SECONDS_PER_HOUR;
    hour_seconds.checked_add(minute_seconds)
}

/// The character that writes the digit `d`.
pub open spec fn digit_char(d: nat) -> char
    recommends
        d < 10,
{
    ('0' as int + d) as char
}

/// `n` written in decimal, without leading zeros.
pub open spec fn decimal_text(n: nat) -> Seq<char>
    decreases n,
{
    if n < 10 {
        seq![digit_char(n)]
    } else {
        decimal_text(n / 10).push(digit_char(n % 10))
    }
}

/// `n` written in decimal and padded with a zero to at least two digits.
pub open spec fn padded_text(n: nat) -> Seq<char> {
    if n < 10 {
        seq!['0', digit_char(n)]
    } else {
        decimal_text(n)
    }
}

/// The form `H:MM` in which a duration is shown.
pub open spec fn hours_minutes_text(hours: nat, minutes: nat) -> Seq<char> {
    decimal_text(hours) + seq![':'] + padded_text(minutes)
}

/// The form `:SS` that follows `H:MM` on the clock face.
pub open spec fn seconds_text(seconds: nat) -> Seq<char> {
    seq![':'] + padded_text(seconds)
}

/// Decimal text is a numeral and denotes the number it was written from.
pub proof fn lemma_decimal_text(n: nat)
    ensures
        is_numeral(decimal_text(n)),
        numeral_value(decimal_text(n)) == n,
    decreases n,
{
    let text = decimal_text(n);
    if n < 10 {
        assert(text.drop_last() =~= Seq::<char>::empty());
        assert(numeral_value(text.drop_last()) == 0);
    } else {
        lemma_decimal_text(n / 10);
        assert(text.drop_last() =~= decimal_text(n / 10));
        assert(text.last() == digit_char(n % 10));
    }
}

/// Padded text is a numeral and denotes the number it was written from.
pub proof fn lemma_padded_text(n: nat)
    ensures
        is_numeral(padded_text(n)),
        numeral_value(padded_text(n)) == n,
{
    let text = padded_text(n);
    if n < 10 {
        let head = text.drop_last();
        assert(head =~= seq!['0']);
        assert(head.drop_last() =~= Seq::<char>::empty());
        assert(numeral_value(head.drop_last()) == 0);
        assert(numeral_value(head) == 0);
    } else {
        lemma_decimal_text(n);
    }
}

/// Writing hours and minutes as `H:MM` and parsing that text under the same
/// bound gives the duration back, wherever the rules on the two fields admit
/// the pair and the sum fits in `u64`.
pub proof fn lemma_format_then_parse(hours: nat, minutes: nat, bound: u64)
    requires
        minutes_allowed(minutes, bound),
        hours_allowed(hours, bound),
        hours * 3600 + minutes * 60 <= u64::MAX,
    ensures
        parsed_duration(hours_minutes_text(hours, minutes), bound) == Some(
            (hours * 3600 + minutes * 60) as u64,
        ),
{
    let h = decimal_text(hours);
    let m = padded_text(minutes);
    let text = hours_minutes_text(hours, minutes);
    lemma_decimal_text(hours);
    lemma_padded_text(minutes);
    let k = h.len() as int;
    assert forall|j: int| 0 <= j < k implies text[j] != ':' by {
        assert(text[j] == h[j]);
        assert(is_digit(h[j]));
    }
    assert(text[k] == ':');
    lemma_colon_index(text, k);
    assert(text.subrange(0, k) =~= h);
    assert(text.subrange(k + 1, text.len() as int) =~= m);
}

/// The one-character text of the digit `d`.
fn digit_str(d: u64) -> (text: &'static str)
    requires
        d < 10,
    ensures
        text@ == seq![digit_char(d as nat)],
{
    proof {
        reveal_strlit("0");
        reveal_strlit("1");
        reveal_strlit("2");
        reveal_strlit("3");
        reveal_strlit("4");
        reveal_strlit("5");
        reveal_strlit("6");
        reveal_strlit("7");
        reveal_strlit("8");
        reveal_strlit("9");
    }
    let text = if d == 0 {
        "0"
    } else if d == 1 {
        "1"
    } else if d == 2 {
        "2"
    } else if d == 3 {
        "3"
    } else if d == 4 {
        "4"
    } else if d == 5 {
        "5"
    } else if d == 6 {
        "6"
    } else if d == 7 {
        "7"
    } else if d == 8 {
        "8"
    } else {
        "9"
    };
    assert(text@ =~= seq![digit_char(d as nat)]);
    text
}

/// Appends `n` in decimal to `out`.
fn push_decimal(out: &mut String, n: u64)
    ensures
        final(out)@ == old(out)@ + decimal_text(n as nat),
    decreases n,
{
    if n >= 10 {
        push_decimal(out, n / 10);
    }
    out.append(digit_str(n % 10));
    assert(out@ =~= old(out)@ + decimal_text(n as nat));
}

/// Appends `n` in decimal, padded to two digits, to `out`.
fn push_padded(out: &mut String, n: u64)
    ensures
        final(out)@ == old(out)@ + padded_text(n as nat),
{
    if n < 10 {
        out.append(digit_str(0));
        out.append(digit_str(n));
    } else {
        push_decimal(out, n);
    }
    assert(out@ =~= old(out)@ + padded_text(n as nat));
}

/// Writes hours and minutes in the form `H:MM`.
pub fn format_hours_minutes(hours: u64, minutes: u64) -> (text: String)
    ensures
        text@ == hours_minutes_text(hours as nat, minutes as nat),
{
    let mut text = String::new();
    push_decimal(&mut text, hours);
    proof {
        reveal_strlit(":");
    }
    text.append(":");
    push_padded(&mut text, minutes);
    assert(text@ =~= hours_minutes_text(hours as nat, minutes as nat));
    text
}

/// Writes seconds in the form `:SS`.
pub fn format_seconds(seconds: u64) -> (text: String)
    ensures
        text@ == seconds_text(seconds as nat),
{
    let mut text = String::new();
    proof {
        reveal_strlit(":");
    }
    text.append(":");
    push_padded(&mut text, seconds);
    assert(text@ =~= seconds_text(seconds as nat));
    text
}

/// Writes a duration of `seconds` as its whole hours and the minutes beyond
/// them, in the form `H:MM`.
pub fn format_duration(seconds: u64) -> (text: String)
    ensures
        text@ == hours_minutes_text(
            (seconds / SECONDS_PER_HOUR) as nat,
            (seconds / SECONDS_PER_MINUTE % 60) as nat,
        ),
{
    format_hours_minutes(seconds / SECONDS_PER_HOUR, seconds / SECONDS_PER_MINUTE % 60)
}

/// Writes the seconds of a duration beyond its whole minutes, in the form
/// `:SS`.
pub fn format_duration_seconds(seconds: u64) -> (text: String)
    ensures
        text@ == seconds_text((seconds % SECONDS_PER_MINUTE) as nat),
{
    format_seconds(seconds % SECONDS_PER_MINUTE)
}

/// A duration of whole minutes that is shown and typed back is committed
/// unchanged, wherever the bound's rules admit it: parsing what
/// `format_duration` writes gives the duration again.
pub proof fn lemma_shown_duration_parses_back(seconds: u64, bound: u64)
    requires
        seconds % 60 == 0,
        seconds <= bound,
    ensures
        parsed_duration(
            hours_minutes_text((seconds / 3600) as nat, (seconds / 60 % 60) as nat),
            bound,
        ) == Some(seconds),
{
    let hours = (seconds / 3600) as nat;
    let minutes = (seconds / 60 % 60) as nat;
    assert(hours * 3600 + minutes * 60 == seconds);
    lemma_format_then_parse(hours, minutes, bound);
}

} // verus!
