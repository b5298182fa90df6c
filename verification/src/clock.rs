//! The time of day.

use vstd::prelude::*;
use crate::text::{chars_of, digit, digits_value, is_digit, push_two_digits, trim, trimmed, two_digits};

verus! {

broadcast use vstd::string::group_string_axioms;

/// The hours, minutes and seconds of a second of the day.
pub open spec fn clock_face(second: nat) -> Seq<char> {
    two_digits(second / 3600) + ":"@ + two_digits(second / 60 % 60) + ":"@ + two_digits(second % 60)
}

/// The local time of day, `HH:MM:SS`, so many seconds after the beginning of
/// 1970 in Greenwich, where the clocks are so many seconds ahead of Greenwich.
pub fn chrono_now(unix_secs: u64, ahead: u64) -> (r: String)
    ensures
        r@ == clock_face(((unix_secs + ahead) % 86400) as nat),
{
    let second: u64 = (unix_secs % 86400 + ahead % 86400) % 86400;
    assert(second == (unix_secs + ahead) % 86400);
    let mut r = String::new();
    push_two_digits(&mut r, second / 3600);
    r.append(":");
    push_two_digits(&mut r, second / 60 % 60);
    r.append(":");
    push_two_digits(&mut r, second % 60);
    assert(r@ =~= clock_face(((unix_secs + ahead) % 86400) as nat));
    r
}

/// Whether a text is an offset from Greenwich: a sign and four digits.
pub open spec fn is_offset(s: Seq<char>) -> bool {
    &&& s.len() == 5
    &&& s[0] == '+' || s[0] == '-'
    &&& is_digit(s[1]) && is_digit(s[2]) && is_digit(s[3]) && is_digit(s[4])
}

/// How many seconds an offset is: its first two digits are hours, the other two
/// minutes; to the west, it is counted from the day before. Any other text is
/// no offset.
pub open spec fn offset_of(s: Seq<char>) -> int {
    if is_offset(s) {
        let size = digits_value(s.subrange(1, 3)) * 3600 + digits_value(s.subrange(3, 5)) * 60;
        if s[0] == '+' {
            size as int
        } else {
            (-size) % 86400
        }
    } else {
        0
    }
}

/// The value of a digit.
fn digit_of(c: char) -> (r: u64)
    requires
        is_digit(c),
    ensures
        r < 10,
        r == c as int - '0' as int,
{
    (c as u32 - '0' as u32) as u64
}

/// The value of two digits.
fn two_of(a: char, b: char) -> (r: u64)
    requires
        is_digit(a),
        is_digit(b),
    ensures
        r < 100,
        r == digits_value(seq![a, b]),
{
    proof {
        reveal_with_fuel(digits_value, 3);
        assert(seq![a, b].drop_last() =~= seq![a]);
        assert(seq![a].drop_last() =~= Seq::<char>::empty());
    }
    digit_of(a) * 10 + digit_of(b)
}

/// How far the clocks are ahead of Greenwich, in seconds, where `date +%z`
/// writes this text.
pub fn utc_offset(text: &str) -> (r: u64)
    ensures
        r == offset_of(trimmed(text@)),
{
    let s = trim(&chars_of(text));
    if s.len() != 5 || (s[0] != '+' && s[0] != '-') {
        return 0;
    }
    let mut i: usize = 1;
    while i < 5
        invariant
            1 <= i <= 5,
            s@.len() == 5,
            s@ == trimmed(text@),
            forall|j: int| 1 <= j < i ==> is_digit(#[trigger] s@[j]),
        decreases 5 - i,
    {
        if !(s[i] >= '0' && s[i] <= '9') {
            assert(!is_digit(s@[i as int]));
            return 0;
        }
        i = i + 1;
    }
    assert(is_digit(s@[1]) && is_digit(s@[2]) && is_digit(s@[3]) && is_digit(s@[4]));
    assert(s@.subrange(1, 3) =~= seq![s@[1], s@[2]]);
    assert(s@.subrange(3, 5) =~= seq![s@[3], s@[4]]);
    let size: u64 = two_of(s[1], s[2]) * 3600 + two_of(s[3], s[4]) * 60;
    if s[0] == '+' {
        size
    } else {
        (86400 - size % 86400) % 86400
    }
}

/// Numbers below one hundred are written differently.
proof fn lemma_two_digits_differ(a: nat, b: nat)
    requires
        a < 100,
        b < 100,
        two_digits(a) == two_digits(b),
    ensures
        a == b,
{
    assert(two_digits(a)[0] == digit(a / 10) && two_digits(a)[1] == digit(a % 10));
    assert(two_digits(b)[0] == digit(b / 10) && two_digits(b)[1] == digit(b % 10));
}

/// The clock ticks: at two different seconds of a day it shows different times,
/// each of eight characters.
pub proof fn clock_ticks(a: nat, b: nat)
    requires
        a < 86400,
        b < 86400,
    ensures
        clock_face(a).len() == 8,
        clock_face(a) == clock_face(b) ==> a == b,
{
    reveal_strlit(":");
    let x = clock_face(a);
    let y = clock_face(b);
    assert(x.subrange(0, 2) =~= two_digits(a / 3600));
    assert(x.subrange(3, 5) =~= two_digits(a / 60 % 60));
    assert(x.subrange(6, 8) =~= two_digits(a % 60));
    assert(y.subrange(0, 2) =~= two_digits(b / 3600));
    assert(y.subrange(3, 5) =~= two_digits(b / 60 % 60));
    assert(y.subrange(6, 8) =~= two_digits(b % 60));
    if x == y {
        lemma_two_digits_differ(a / 3600, b / 3600);
        lemma_two_digits_differ(a / 60 % 60, b / 60 % 60);
        lemma_two_digits_differ(a % 60, b % 60);
        assert(a / 60 == a / 3600 * 60 + a / 60 % 60);
        assert(b / 60 == b / 3600 * 60 + b / 60 % 60);
    }
}

} // verus!
