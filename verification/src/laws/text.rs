//! Laws of texts.

use vstd::prelude::*;
use vstd::utf8::{encode_utf8, is_ascii_chars};
use crate::order::{char_order, text_before};
use crate::text::{
    after_bytes, after_last, ascii_lowered, before, begins, decimal, digit,
    digits_value, ends, has_text, is_digit, is_space, lines_of, only, stands_at, strip_end,
    strip_start, trimmed, two_digits, u32_of, unquoted, width,
};

verus! {

/// A text occurs in another exactly if the other is made of something, the text
/// and something else.
pub proof fn found_is_between(hay: Seq<char>, needle: Seq<char>)
    ensures
        has_text(hay, needle) <==> exists|a: Seq<char>, b: Seq<char>| hay == #[trigger] (a + needle + b),
{
    if has_text(hay, needle) {
        let i = choose|i: int| stands_at(hay, needle, i);
        let a = hay.take(i);
        let b = hay.skip(i + needle.len());
        assert(hay =~= a + needle + b);
    }
    if exists|a: Seq<char>, b: Seq<char>| hay == #[trigger] (a + needle + b) {
        let (a, b) = choose|a: Seq<char>, b: Seq<char>| hay == #[trigger] (a + needle + b);
        between_is_found(a, needle, b);
    }
}

/// What stands between two texts occurs in the whole.
pub proof fn between_is_found(a: Seq<char>, needle: Seq<char>, b: Seq<char>)
    ensures
        has_text(a + needle + b, needle),
{
    let hay = a + needle + b;
    assert(hay.subrange(a.len() as int, (a.len() + needle.len()) as int) =~= needle);
    assert(stands_at(hay, needle, a.len() as int));
}

/// What occurs in a text occurs in a longer one.
pub proof fn longer_texts_hold_as_much(a: Seq<char>, hay: Seq<char>, b: Seq<char>, needle: Seq<char>)
    requires
        has_text(hay, needle),
    ensures
        has_text(a + hay + b, needle),
{
    let i = choose|i: int| stands_at(hay, needle, i);
    let all = a + hay + b;
    assert(all.subrange(a.len() + i, a.len() + i + needle.len()) =~= needle);
    assert(stands_at(all, needle, a.len() + i));
}

/// What a text holds, it still holds if something follows.
pub broadcast proof fn longer_texts_keep(s: Seq<char>, t: Seq<char>, needle: Seq<char>)
    requires
        has_text(s, needle),
    ensures
        #[trigger] has_text(s + t, needle),
{
    longer_texts_hold_as_much(Seq::empty(), s, t, needle);
    assert(Seq::<char>::empty() + s + t =~= s + t);
}

/// Two texts one after the other begin with the first and end with the second, and
/// hold it.
pub proof fn end_is_found(s: Seq<char>, t: Seq<char>)
    ensures
        has_text(s + t, t),
        ends(s + t, t),
        begins(s + t, s),
{
    between_is_found(s, t, Seq::empty());
    assert(s + t + Seq::<char>::empty() =~= s + t);
    assert((s + t).subrange(s.len() as int, (s.len() + t.len()) as int) =~= t);
    assert((s + t).subrange(0, s.len() as int) =~= s);
}

/// A text begins with another exactly if it is the other and something behind it;
/// it ends with another exactly if it is the other and something before it.
pub proof fn beginnings_and_ends(whole: Seq<char>, part: Seq<char>)
    ensures
        begins(whole, part) <==> exists|b: Seq<char>| whole == #[trigger] (part + b),
        ends(whole, part) <==> exists|a: Seq<char>| whole == #[trigger] (a + part),
{
    if begins(whole, part) {
        assert(whole =~= part + whole.skip(part.len() as int));
    }
    if ends(whole, part) {
        assert(whole =~= whole.take(whole.len() - part.len()) + part);
    }
    if exists|b: Seq<char>| whole == #[trigger] (part + b) {
        let b = choose|b: Seq<char>| whole == #[trigger] (part + b);
        assert((part + b).subrange(0, part.len() as int) =~= part);
    }
    if exists|a: Seq<char>| whole == #[trigger] (a + part) {
        let a = choose|a: Seq<char>| whole == #[trigger] (a + part);
        assert((a + part).subrange(a.len() as int, (a.len() + part.len()) as int) =~= part);
    }
}

/// Whether each character of a text passes a test.
pub open spec fn each(s: Seq<char>, p: spec_fn(char) -> bool) -> bool {
    forall|i: int| 0 <= i < s.len() ==> p(#[trigger] s[i])
}

/// What is stripped from both ends is what passes the test there, and no more.
pub proof fn strips_both_ends(a: Seq<char>, mid: Seq<char>, b: Seq<char>, p: spec_fn(char) -> bool)
    requires
        each(a, p),
        each(b, p),
        mid.len() > 0 ==> !p(mid[0]) && !p(mid[mid.len() - 1]),
    ensures
        strip_end(strip_start(a + mid + b, p), p) == mid,
    decreases a.len() + b.len(),
{
    if a.len() > 0 {
        assert(p(a[0]));
        assert((a + mid + b).first() == a[0]);
        assert((a + mid + b).drop_first() =~= a.drop_first() + mid + b);
        assert forall|i: int| 0 <= i < a.drop_first().len() implies p(
            #[trigger] a.drop_first()[i],
        ) by {
            assert(p(a[i + 1]));
        }
        strips_both_ends(a.drop_first(), mid, b, p);
    } else if mid.len() > 0 {
        assert((a + mid + b).first() == mid[0]);
        assert(a + mid + b =~= mid + b);
        strips_the_end(mid, b, p);
    } else {
        assert(a + mid + b =~= b);
        strips_all(b, p);
        assert(mid =~= Seq::<char>::empty());
    }
}

proof fn strips_the_end(mid: Seq<char>, b: Seq<char>, p: spec_fn(char) -> bool)
    requires
        each(b, p),
        mid.len() > 0,
        !p(mid[mid.len() - 1]),
    ensures
        strip_end(mid + b, p) == mid,
    decreases b.len(),
{
    if b.len() == 0 {
        assert(mid + b =~= mid);
    } else {
        assert(p(b[b.len() - 1]));
        assert((mid + b).last() == b[b.len() - 1]);
        assert((mid + b).drop_last() =~= mid + b.drop_last());
        assert forall|i: int| 0 <= i < b.drop_last().len() implies p(#[trigger] b.drop_last()[i]) by {
            assert(p(b[i]));
        }
        strips_the_end(mid, b.drop_last(), p);
    }
}

proof fn strips_all(b: Seq<char>, p: spec_fn(char) -> bool)
    requires
        each(b, p),
    ensures
        strip_start(b, p) == Seq::<char>::empty(),
    decreases b.len(),
{
    if b.len() > 0 {
        assert(p(b[0]));
        assert forall|i: int| 0 <= i < b.drop_first().len() implies p(
            #[trigger] b.drop_first()[i],
        ) by {
            assert(p(b[i + 1]));
        }
        strips_all(b.drop_first(), p);
    } else {
        assert(b =~= Seq::<char>::empty());
    }
}

/// Trimming takes away the white space around a text and nothing else.
pub proof fn trims_the_space_around(a: Seq<char>, mid: Seq<char>, b: Seq<char>)
    requires
        each(a, |c: char| is_space(c)),
        each(b, |c: char| is_space(c)),
        mid.len() > 0 ==> !is_space(mid[0]) && !is_space(mid[mid.len() - 1]),
    ensures
        trimmed(a + mid + b) == mid,
        trimmed(mid) == mid,
{
    let p = |c: char| is_space(c);
    strips_both_ends(a, mid, b, p);
    let none = Seq::<char>::empty();
    strips_both_ends(none, mid, none, p);
    assert(none + mid + none =~= mid);
}

/// A text is nothing once trimmed exactly if it is all white space.
pub proof fn trims_to_nothing(s: Seq<char>)
    ensures
        trimmed(s).len() == 0 <==> each(s, |c: char| is_space(c)),
{
    let p = |c: char| is_space(c);
    if each(s, p) {
        strips_all(s, p);
    } else {
        let i = choose|i: int| 0 <= i < s.len() && !p(#[trigger] s[i]);
        keeps_what_fails(s, p, i);
    }
}

proof fn keeps_what_fails(s: Seq<char>, p: spec_fn(char) -> bool, i: int)
    requires
        0 <= i < s.len(),
        !p(s[i]),
    ensures
        strip_end(strip_start(s, p), p).len() > 0,
    decreases s.len(),
{
    if p(s.first()) {
        assert(s.drop_first()[i - 1] == s[i]);
        keeps_what_fails(s.drop_first(), p, i - 1);
    } else {
        keeps_at_the_start(s, p);
    }
}

proof fn keeps_at_the_start(s: Seq<char>, p: spec_fn(char) -> bool)
    requires
        s.len() > 0,
        !p(s[0]),
    ensures
        strip_end(s, p).len() > 0,
    decreases s.len(),
{
    if p(s.last()) {
        assert(s.drop_last()[0] == s[0]);
        keeps_at_the_start(s.drop_last(), p);
    }
}

/// Quotes around a text go, and those inside it stay.
pub proof fn quotes_around_go(a: Seq<char>, mid: Seq<char>, b: Seq<char>, q: char)
    requires
        each(a, |c: char| c == q),
        each(b, |c: char| c == q),
        mid.len() > 0 ==> mid[0] != q && mid[mid.len() - 1] != q,
    ensures
        unquoted(a + mid + b, q) == mid,
        unquoted(mid, q) == mid,
{
    let p = only(q);
    assert(each(a, p)) by {
        assert forall|i: int| 0 <= i < a.len() implies p(#[trigger] a[i]) by {
            assert((|c: char| c == q)(a[i]));
        }
    }
    assert(each(b, p)) by {
        assert forall|i: int| 0 <= i < b.len() implies p(#[trigger] b[i]) by {
            assert((|c: char| c == q)(b[i]));
        }
    }
    strips_both_ends(a, mid, b, p);
    let none = Seq::<char>::empty();
    strips_both_ends(none, mid, none, p);
    assert(none + mid + none =~= mid);
}

/// Before the first `c` stands what holds none; and where there is none, that is
/// the whole.
pub proof fn counts_up_to_the_first(a: Seq<char>, c: char, b: Seq<char>)
    requires
        !a.contains(c),
    ensures
        before(a + seq![c] + b, c) == a.len(),
        before(a, c) == a.len(),
    decreases a.len(),
{
    let all = a + seq![c] + b;
    if a.len() > 0 {
        assert(all.first() == a[0]);
        assert(a.contains(a[0]));
        assert(all.drop_first() =~= a.drop_first() + seq![c] + b);
        assert(!a.drop_first().contains(c)) by {
            if a.drop_first().contains(c) {
                let k = choose|k: int| 0 <= k < a.drop_first().len() && a.drop_first()[k] == c;
                assert(a[k + 1] == c);
            }
        }
        counts_up_to_the_first(a.drop_first(), c, b);
    } else {
        assert(all.first() == c);
    }
}

/// After the last `c` stands what holds none; and where there is none, that is
/// the whole.
pub proof fn keeps_what_follows_the_last(a: Seq<char>, c: char, b: Seq<char>)
    requires
        !b.contains(c),
    ensures
        after_last(a + seq![c] + b, c) == b,
        after_last(b, c) == b,
    decreases b.len(),
{
    let all = a + seq![c] + b;
    if b.len() > 0 {
        assert(all.last() == b.last());
        assert(b.contains(b[b.len() - 1]));
        assert(all.drop_last() =~= a + seq![c] + b.drop_last());
        assert(!b.drop_last().contains(c)) by {
            if b.drop_last().contains(c) {
                let k = choose|k: int| 0 <= k < b.drop_last().len() && b.drop_last()[k] == c;
                assert(b[k] == c);
            }
        }
        keeps_what_follows_the_last(a, c, b.drop_last());
        assert(b.drop_last().push(b.last()) =~= b);
    } else {
        assert(all.last() == c);
        assert(b =~= Seq::<char>::empty());
    }
}

/// A line and its end come first among the lines of a text, and the lines of what
/// follows come after it.
pub proof fn lines_come_one_by_one(line: Seq<char>, rest: Seq<char>)
    requires
        !line.contains('\n'),
    ensures
        line.len() > 0 ==> lines_of(line) == seq![line],
        lines_of(Seq::<char>::empty()).len() == 0,
        lines_of(line + seq!['\r', '\n'] + rest) == seq![line] + lines_of(rest),
        line.len() == 0 || line[line.len() - 1] != '\r' ==> lines_of(line + seq!['\n'] + rest)
            == seq![line] + lines_of(rest),
{
    counts_up_to_the_first(line, '\n', rest);
    let all = line + seq!['\n'] + rest;
    assert(all.take(line.len() as int) =~= line);
    assert(all.skip(line.len() as int + 1) =~= rest);
    let wide = line.push('\r');
    assert(!wide.contains('\n')) by {
        if wide.contains('\n') {
            let k = choose|k: int| 0 <= k < wide.len() && wide[k] == '\n';
            assert(k < line.len());
            assert(line[k] == '\n');
        }
    }
    counts_up_to_the_first(wide, '\n', rest);
    let far = wide + seq!['\n'] + rest;
    assert(far =~= line + seq!['\r', '\n'] + rest);
    assert(far.take(wide.len() as int) =~= wide);
    assert(far.skip(wide.len() as int + 1) =~= rest);
    assert(wide.drop_last() =~= line);
}

/// A line in a text is among its lines, whatever full lines stand before it and
/// whatever stands after it.
pub proof fn each_line_is_found(a: Seq<char>, line: Seq<char>, rest: Seq<char>)
    requires
        a.len() == 0 || a[a.len() - 1] == '\n',
        !line.contains('\n'),
        line.len() == 0 || line[line.len() - 1] != '\r',
    ensures
        lines_of(a + line + seq!['\n'] + rest).contains(line),
        line.len() > 0 ==> lines_of(a + line).contains(line),
    decreases a.len(),
{
    if a.len() == 0 {
        assert(a + line =~= line);
        lines_come_one_by_one(line, rest);
        assert(lines_of(line + seq!['\n'] + rest)[0] == line);
        if line.len() > 0 {
            assert(lines_of(line)[0] == line);
        }
    } else {
        let n = before(a, '\n') as int;
        lemma_before_finds(a, '\n');
        let head = a.take(n);
        let tail = a.skip(n + 1);
        assert(!head.contains('\n')) by {
            if head.contains('\n') {
                let k = choose|k: int| 0 <= k < head.len() && head[k] == '\n';
                assert(a[k] == '\n');
            }
        }
        assert(a =~= head + seq!['\n'] + tail);
        each_line_is_found(tail, line, rest);
        let x = tail + line + seq!['\n'] + rest;
        let y = tail + line;
        counts_up_to_the_first(head, '\n', x);
        counts_up_to_the_first(head, '\n', y);
        let wx = head + seq!['\n'] + x;
        let wy = head + seq!['\n'] + y;
        assert(wx =~= a + line + seq!['\n'] + rest);
        assert(wy =~= a + line);
        assert(wx.skip(n + 1) =~= x);
        assert(wy.skip(n + 1) =~= y);
        let k = choose|k: int| 0 <= k < lines_of(x).len() && lines_of(x)[k] == line;
        assert(lines_of(wx)[k + 1] == line);
        if line.len() > 0 {
            let k = choose|k: int| 0 <= k < lines_of(y).len() && lines_of(y)[k] == line;
            assert(lines_of(wy)[k + 1] == line);
        }
    }
}

proof fn lemma_before_finds(s: Seq<char>, c: char)
    requires
        s.contains(c) || (s.len() > 0 && s[s.len() - 1] == c),
    ensures
        before(s, c) < s.len(),
        s[before(s, c) as int] == c,
        forall|k: int| 0 <= k < before(s, c) ==> s[k] != c,
    decreases s.len(),
{
    if s.first() != c {
        let t = s.drop_first();
        if s[s.len() - 1] == c {
            assert(t[t.len() - 1] == c);
        } else {
            let k = choose|k: int| 0 <= k < s.len() && s[k] == c;
            assert(t[k - 1] == c);
        }
        lemma_before_finds(t, c);
        assert forall|k: int| 0 <= k < before(s, c) implies s[k] != c by {
            if k > 0 {
                assert(t[k - 1] == s[k]);
            }
        }
    }
}

/// A number in decimal is digits that write the number, with no nought before
/// them.
pub proof fn decimals_write_numbers(n: nat)
    ensures
        digits_value(decimal(n)) == n,
        each(decimal(n), |c: char| is_digit(c)),
        decimal(n).len() > 0,
        decimal(n)[0] == '0' <==> n == 0,
    decreases n,
{
    if n < 10 {
        assert(seq![digit(n)].drop_last() =~= Seq::<char>::empty());
        reveal_with_fuel(digits_value, 2);
        assert(digit(n) as u32 == 48 + n);
    } else {
        decimals_write_numbers(n / 10);
        let d = decimal(n);
        assert(d.drop_last() =~= decimal(n / 10));
        assert(d.last() == digit(n % 10));
        assert(digit(n % 10) as u32 == 48 + n % 10);
        assert forall|i: int| 0 <= i < d.len() implies (|c: char| is_digit(c))(#[trigger] d[i]) by {
            if i < d.len() - 1 {
                assert((|c: char| is_digit(c))(decimal(n / 10)[i]));
            }
        }
        assert(d[0] == decimal(n / 10)[0]);
    }
}

/// Different numbers are written differently.
pub proof fn decimals_differ(a: nat, b: nat)
    ensures
        decimal(a) == decimal(b) <==> a == b,
{
    decimals_write_numbers(a);
    decimals_write_numbers(b);
}

/// A number that is written in decimal is read back, if it fits; a text that
/// holds anything but digits is no number, but for one plus at its start.
pub proof fn numbers_are_read_back(n: nat, s: Seq<char>)
    ensures
        n <= u32::MAX ==> u32_of(decimal(n)) == Some(n as u32),
        n > u32::MAX ==> u32_of(decimal(n)) is None,
        (exists|i: int| 1 <= i < s.len() && !is_digit(#[trigger] s[i])) ==> u32_of(s) is None,
        s.len() == 0 ==> u32_of(s) is None,
{
    decimals_write_numbers(n);
    let d = decimal(n);
    assert((|c: char| is_digit(c))(d[0]));
    assert(d.all(|c: char| is_digit(c))) by {
        assert forall|i: int| 0 <= i < d.len() implies (|c: char| is_digit(c))(#[trigger] d[i]) by {
            assert((|c: char| is_digit(c))(d[i]));
        }
    }
    if exists|i: int| 1 <= i < s.len() && !is_digit(#[trigger] s[i]) {
        let i = choose|i: int| 1 <= i < s.len() && !is_digit(#[trigger] s[i]);
        assert(!(|c: char| is_digit(c))(s[i]));
        if s.first() == '+' {
            assert(s.drop_first()[i - 1] == s[i]);
        }
    }
}

/// Two digits write a number below one hundred.
pub proof fn two_digits_write_numbers(n: nat)
    requires
        n < 100,
    ensures
        two_digits(n).len() == 2,
        digits_value(two_digits(n)) == n,
        is_digit(two_digits(n)[0]),
        is_digit(two_digits(n)[1]),
{
    let d = two_digits(n);
    reveal_with_fuel(digits_value, 3);
    assert(d.drop_last() =~= seq![d[0]]);
    assert(seq![d[0]].drop_last() =~= Seq::<char>::empty());
    assert(digit(n / 10) as u32 == 48 + n / 10);
    assert(digit(n % 10) as u32 == 48 + n % 10);
}

/// Behind so many bytes stands what follows as many ASCII characters.
pub proof fn ascii_takes_a_byte_each(head: Seq<char>, rest: Seq<char>)
    requires
        is_ascii_chars(head),
    ensures
        after_bytes(head + rest, head.len()) == Some(rest),
    decreases head.len(),
{
    if head.len() == 0 {
        assert(head + rest =~= rest);
    } else {
        assert('\0' <= head[0] <= '\u{7f}');
        assert((head + rest).drop_first() =~= head.drop_first() + rest);
        assert forall|i: int| 0 <= i < head.drop_first().len() implies '\0'
            <= #[trigger] head.drop_first()[i] <= '\u{7f}' by {
            assert('\0' <= head[i + 1] <= '\u{7f}');
        }
        assert(width(head[0]) == 1);
        ascii_takes_a_byte_each(head.drop_first(), rest);
    }
}

/// Lowering touches the ASCII capitals alone: each becomes the letter that comes
/// as far behind `a` as it comes behind `A`.
pub proof fn only_capitals_are_lowered(s: Seq<char>, i: int)
    requires
        0 <= i < s.len(),
    ensures
        ascii_lowered(s).len() == s.len(),
        'A' <= s[i] <= 'Z' ==> ascii_lowered(s)[i] as int - 'a' as int == s[i] as int - 'A' as int,
        !('A' <= s[i] <= 'Z') ==> ascii_lowered(s)[i] == s[i],
{
}

/// Of two texts the one stands first that is the beginning of the other, or has
/// the smaller character where they first differ.
pub proof fn texts_are_ordered_by_their_first_difference(
    common: Seq<char>,
    a: Seq<char>,
    b: Seq<char>,
)
    requires
        a.len() == 0 || b.len() == 0 || a[0] != b[0],
    ensures
        text_before(common + a, common + b) <==> b.len() > 0 && (a.len() == 0 || (a[0] as int) < (
        b[0] as int)),
    decreases common.len(),
{
    if common.len() == 0 {
        assert(common + a =~= a);
        assert(common + b =~= b);
        let lt = char_order();
        if a.len() > 0 && b.len() > 0 {
            assert(lt(a[0], b[0]) == ((a[0] as int) < (b[0] as int)));
        }
    } else {
        let x = common + a;
        let y = common + b;
        let lt = char_order();
        assert(x.drop_first() =~= common.drop_first() + a);
        assert(y.drop_first() =~= common.drop_first() + b);
        assert(x.first() == common[0] && y.first() == common[0]);
        assert(!lt(common[0], common[0]));
        assert(text_before(x, y) == text_before(x.drop_first(), y.drop_first()));
        texts_are_ordered_by_their_first_difference(common.drop_first(), a, b);
    }
}

/// A character takes as many bytes as it has in UTF-8, and after the bytes of some
/// text stands what follows it.
pub proof fn bytes_are_those_of_the_encoding(head: Seq<char>, rest: Seq<char>)
    ensures
        after_bytes(head + rest, encode_utf8(head).len()) == Some(rest),
    decreases head.len(),
{
    if head.len() == 0 {
        assert(head + rest =~= rest);
    } else {
        let all = head + rest;
        assert(all.first() == head[0]);
        assert(all.drop_first() =~= head.drop_first() + rest);
        bytes_are_those_of_the_encoding(head.drop_first(), rest);
        width_is_that_of_the_encoding(head[0]);
        assert(encode_utf8(head).len() == width(head[0]) + encode_utf8(head.drop_first()).len());
    }
}

proof fn width_is_that_of_the_encoding(c: char)
    ensures
        vstd::utf8::encode_scalar(c as u32).len() == width(c),
{
    assert(vstd::utf8::is_scalar(c as u32));
}

/// White space is what Unicode calls so: these characters and no others.
pub proof fn these_are_white_space(c: char)
    ensures
        is_space(c) <==> {
            let n = c as u32;
            n == 9 || n == 10 || n == 11 || n == 12 || n == 13 || n == 32 || n == 0x85 || n == 0xa0
                || n == 0x1680 || (0x2000 <= n && n <= 0x200a) || n == 0x2028 || n == 0x2029 || n
                == 0x202f || n == 0x205f || n == 0x3000
        },
        is_digit(c) <==> 48 <= c as u32 && c as u32 <= 57,
{
}

} // verus!
