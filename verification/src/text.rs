//! Text as a sequence of characters: searching, trimming, splitting, and
//! numbers in decimal.

use vstd::prelude::*;

verus! {

broadcast use vstd::string::group_string_axioms;

/// `String::push` of std: the character is appended.
pub assume_specification [String::push] (s: &mut String, c: char)
    ensures
        final(s)@ == old(s)@.push(c),
;

/// What `str::to_lowercase` of std makes of a text.
pub uninterp spec fn lowercase(s: Seq<char>) -> Seq<char>;

/// `str::to_lowercase` of std: Unicode lowercase. On a text of ASCII
/// characters alone that is the ASCII lowercase of each character; what it is
/// on other characters is left to the name.
pub assume_specification [str::to_lowercase] (s: &str) -> (r: String)
    ensures
        r@ == lowercase(s@),
        vstd::utf8::is_ascii_chars(s@) ==> r@ == ascii_lowered(s@),
;

/// The ASCII lowercase of a character; any other character is its own.
pub open spec fn ascii_lower(c: char) -> char {
    if 'A' <= c <= 'Z' {
        ((c as u32) + 32) as char
    } else {
        c
    }
}

/// A text with each ASCII capital lowered.
pub open spec fn ascii_lowered(s: Seq<char>) -> Seq<char> {
    s.map_values(|c: char| ascii_lower(c))
}

/// The characters with Unicode's `White_Space` property.
pub open spec fn is_space(c: char) -> bool {
    ||| '\u{9}' <= c <= '\u{d}'
    ||| c == ' '
    ||| c == '\u{85}'
    ||| c == '\u{a0}'
    ||| c == '\u{1680}'
    ||| '\u{2000}' <= c <= '\u{200a}'
    ||| c == '\u{2028}'
    ||| c == '\u{2029}'
    ||| c == '\u{202f}'
    ||| c == '\u{205f}'
    ||| c == '\u{3000}'
}

/// Whether `needle` stands in `hay` at `i`.
pub open spec fn stands_at(hay: Seq<char>, needle: Seq<char>, i: int) -> bool {
    &&& 0 <= i
    &&& i + needle.len() <= hay.len()
    &&& hay.subrange(i, i + needle.len()) == needle
}

/// Whether `needle` occurs in `hay`.
pub open spec fn has_text(hay: Seq<char>, needle: Seq<char>) -> bool {
    exists|i: int| stands_at(hay, needle, i)
}

/// Whether `hay` begins with `needle`.
pub open spec fn begins(hay: Seq<char>, needle: Seq<char>) -> bool {
    stands_at(hay, needle, 0)
}

/// Whether `hay` ends with `needle`.
pub open spec fn ends(hay: Seq<char>, needle: Seq<char>) -> bool {
    stands_at(hay, needle, hay.len() - needle.len())
}

/// `s` without the characters at its start for which `p` holds.
pub open spec fn strip_start(s: Seq<char>, p: spec_fn(char) -> bool) -> Seq<char>
    decreases s.len(),
{
    if s.len() > 0 && p(s.first()) {
        strip_start(s.drop_first(), p)
    } else {
        s
    }
}

/// `s` without the characters at its end for which `p` holds.
pub open spec fn strip_end(s: Seq<char>, p: spec_fn(char) -> bool) -> Seq<char>
    decreases s.len(),
{
    if s.len() > 0 && p(s.last()) {
        strip_end(s.drop_last(), p)
    } else {
        s
    }
}

/// `s` without the white space around it.
pub open spec fn trimmed(s: Seq<char>) -> Seq<char> {
    strip_end(strip_start(s, |c: char| is_space(c)), |c: char| is_space(c))
}

/// The test for one character.
pub open spec fn only(q: char) -> spec_fn(char) -> bool {
    |c: char| c == q
}

/// `s` without the `q`s around it.
pub open spec fn unquoted(s: Seq<char>, q: char) -> Seq<char> {
    strip_end(strip_start(s, only(q)), only(q))
}

/// How many characters stand before the first `c`; all of them if there is none.
pub open spec fn before(s: Seq<char>, c: char) -> nat
    decreases s.len(),
{
    if s.len() == 0 || s.first() == c {
        0
    } else {
        1 + before(s.drop_first(), c)
    }
}

/// What stands after the last `c`; the whole of `s` if there is none.
pub open spec fn after_last(s: Seq<char>, c: char) -> Seq<char>
    decreases s.len(),
{
    if s.len() == 0 || s.last() == c {
        Seq::empty()
    } else {
        after_last(s.drop_last(), c).push(s.last())
    }
}

/// `s` without one carriage return at its end.
pub open spec fn without_cr(s: Seq<char>) -> Seq<char> {
    if s.len() > 0 && s.last() == '\r' {
        s.drop_last()
    } else {
        s
    }
}

/// The lines of a text. A line ends in a newline, or a carriage return and a
/// newline, neither of which belongs to it; the last line may lack its end.
pub open spec fn lines_of(s: Seq<char>) -> Seq<Seq<char>>
    decreases s.len(),
{
    if s.len() == 0 {
        Seq::empty()
    } else if before(s, '\n') >= s.len() {
        seq![s]
    } else {
        seq![without_cr(s.take(before(s, '\n') as int))] + lines_of(
            s.skip(before(s, '\n') as int + 1),
        )
    }
}

/// How many bytes a character takes in UTF-8.
pub open spec fn width(c: char) -> nat {
    if (c as u32) < 0x80 {
        1
    } else if (c as u32) < 0x800 {
        2
    } else if (c as u32) < 0x10000 {
        3
    } else {
        4
    }
}

/// What is left of `s` after its first `n` bytes in UTF-8, if a character
/// begins (or the text ends) there.
pub open spec fn after_bytes(s: Seq<char>, n: nat) -> Option<Seq<char>>
    decreases s.len(),
{
    if n == 0 {
        Some(s)
    } else if s.len() == 0 || width(s.first()) > n {
        None
    } else {
        after_bytes(s.drop_first(), (n - width(s.first())) as nat)
    }
}

/// The ASCII capital of a character; any other character is its own.
pub open spec fn ascii_upper(c: char) -> char {
    if 'a' <= c <= 'z' {
        ((c as u32) - 32) as char
    } else {
        c
    }
}

/// A text with the capital of each ASCII letter.
pub open spec fn ascii_uppered(s: Seq<char>) -> Seq<char> {
    s.map_values(|c: char| ascii_upper(c))
}

/// Whether a character is a decimal digit.
pub open spec fn is_digit(c: char) -> bool {
    '0' <= c <= '9'
}

/// The number that digits write in decimal.
pub open spec fn digits_value(s: Seq<char>) -> nat
    decreases s.len(),
{
    if s.len() == 0 {
        0
    } else {
        digits_value(s.drop_last()) * 10 + ((s.last() as u32) - 48) as nat
    }
}

/// The `u32` that a text writes: digits, with at most one `+` before them.
pub open spec fn u32_of(s: Seq<char>) -> Option<u32> {
    let digits = if s.len() > 0 && s.first() == '+' {
        s.drop_first()
    } else {
        s
    };
    if digits.len() > 0 && digits.all(|c: char| is_digit(c)) && digits_value(digits) <= u32::MAX {
        Some(digits_value(digits) as u32)
    } else {
        None
    }
}

/// The character of a digit.
pub open spec fn digit(d: nat) -> char {
    (48 + d) as char
}

/// A number in decimal.
pub open spec fn decimal(n: nat) -> Seq<char>
    decreases n,
{
    if n < 10 {
        seq![digit(n)]
    } else {
        decimal(n / 10).push(digit(n % 10))
    }
}

/// A number below one hundred in two digits.
pub open spec fn two_digits(n: nat) -> Seq<char> {
    seq![digit(n / 10), digit(n % 10)]
}

/// The views of texts.
pub open spec fn texts(v: Seq<String>) -> Seq<Seq<char>> {
    v.map_values(|s: String| s@)
}

/// The characters of a string.
pub fn chars_of(s: &str) -> (r: Vec<char>)
    ensures
        r@ == s@,
{
    let mut out: Vec<char> = Vec::new();
    for c in it: s.chars()
        invariant
            out@ == it.seq().take(it.index() as int),
            it.seq() == s@,
    {
        out.push(c);
        assert(it.seq().take(it.index() + 1) =~= it.seq().take(it.index() as int).push(c));
    }
    assert(s@.take(s@.len() as int) =~= s@);
    out
}

/// The text without characters.
pub fn nothing() -> (r: &'static str)
    ensures
        r@ == Seq::<char>::empty(),
{
    proof {
        reveal_strlit("");
        assert(""@ =~= Seq::<char>::empty());
    }
    ""
}

/// The string of some characters.
pub fn text_of(v: &Vec<char>) -> (r: String)
    ensures
        r@ == v@,
{
    let mut out = String::new();
    let mut i: usize = 0;
    assert(v@.take(0) =~= Seq::<char>::empty());
    while i < v.len()
        invariant
            i <= v.len(),
            out@ == v@.take(i as int),
        decreases v.len() - i,
    {
        out.push(v[i]);
        assert(v@.take(i + 1) =~= v@.take(i as int).push(v@[i as int]));
        i += 1;
    }
    assert(v@.take(v@.len() as int) =~= v@);
    out
}

/// The characters from `i` up to `j`.
pub fn cut(v: &Vec<char>, i: usize, j: usize) -> (r: Vec<char>)
    requires
        i <= j <= v@.len(),
    ensures
        r@ == v@.subrange(i as int, j as int),
{
    let mut out: Vec<char> = Vec::new();
    let mut k: usize = i;
    assert(v@.subrange(i as int, i as int) =~= Seq::<char>::empty());
    while k < j
        invariant
            i <= k <= j <= v@.len(),
            out@ == v@.subrange(i as int, k as int),
        decreases j - k,
    {
        out.push(v[k]);
        assert(v@.subrange(i as int, k + 1) =~= v@.subrange(i as int, k as int).push(v@[k as int]));
        k += 1;
    }
    out
}

/// Whether `needle` stands in `hay` at `at`.
pub fn matches_at(hay: &Vec<char>, needle: &Vec<char>, at: usize) -> (r: bool)
    ensures
        r == stands_at(hay@, needle@, at as int),
{
    if at > hay.len() || needle.len() > hay.len() - at {
        return false;
    }
    let mut k: usize = 0;
    while k < needle.len()
        invariant
            at + needle@.len() <= hay.len(),
            k <= needle.len(),
            forall|j: int| 0 <= j < k ==> hay@[at + j] == needle@[j],
        decreases needle@.len() - k,
    {
        if hay[at + k] != needle[k] {
            assert(hay@.subrange(at as int, at + needle@.len())[k as int] != needle@[k as int]);
            return false;
        }
        k += 1;
    }
    assert(hay@.subrange(at as int, at + needle@.len()) =~= needle@);
    true
}

/// Whether two texts are the same.
pub fn same(a: &Vec<char>, b: &str) -> (r: bool)
    ensures
        r == (a@ == b@),
{
    let b = chars_of(b);
    let r = a.len() == b.len() && matches_at(a, &b, 0);
    assert(a@.subrange(0, a@.len() as int) =~= a@);
    r
}

/// Whether `needle` occurs in `hay`.
pub fn contains(hay: &Vec<char>, needle: &str) -> (r: bool)
    ensures
        r == has_text(hay@, needle@),
{
    let n = chars_of(needle);
    if n.len() > hay.len() {
        return false;
    }
    let mut i: usize = 0;
    while i <= hay.len() - n.len()
        invariant
            n@ == needle@,
            n@.len() <= hay@.len(),
            i <= hay@.len() - n@.len() + 1,
            forall|j: int| 0 <= j < i ==> !stands_at(hay@, needle@, j),
        decreases hay@.len() - n@.len() + 1 - i,
    {
        if matches_at(hay, &n, i) {
            return true;
        }
        if i == hay.len() - n.len() {
            return false;
        }
        i += 1;
    }
    false
}

/// Whether `hay` begins with `needle`.
pub fn starts_with(hay: &Vec<char>, needle: &str) -> (r: bool)
    ensures
        r == begins(hay@, needle@),
{
    matches_at(hay, &chars_of(needle), 0)
}

/// Whether `hay` ends with `needle`.
pub fn ends_with(hay: &Vec<char>, needle: &str) -> (r: bool)
    ensures
        r == ends(hay@, needle@),
{
    let n = chars_of(needle);
    n.len() <= hay.len() && matches_at(hay, &n, hay.len() - n.len())
}

/// Whether a character is white space.
pub fn is_white_space(c: char) -> (r: bool)
    ensures
        r == is_space(c),
{
    ('\u{9}' <= c && c <= '\u{d}') || c == ' ' || c == '\u{85}' || c == '\u{a0}' || c == '\u{1680}'
        || ('\u{2000}' <= c && c <= '\u{200a}') || c == '\u{2028}' || c == '\u{2029}' || c
        == '\u{202f}' || c == '\u{205f}' || c == '\u{3000}'
}

/// A text without the white space around it.
pub fn trim(v: &Vec<char>) -> (r: Vec<char>)
    ensures
        r@ == trimmed(v@),
{
    let ghost p = |c: char| is_space(c);
    let mut i: usize = 0;
    assert(v@.skip(0) =~= v@);
    while i < v.len() && is_white_space(v[i])
        invariant
            i <= v@.len(),
            p == (|c: char| is_space(c)),
            strip_start(v@, p) == strip_start(v@.skip(i as int), p),
        decreases v@.len() - i,
    {
        assert(v@.skip(i as int).drop_first() =~= v@.skip(i + 1));
        i += 1;
    }
    let mut j: usize = v.len();
    assert(v@.subrange(i as int, j as int) =~= v@.skip(i as int));
    while j > i && is_white_space(v[j - 1])
        invariant
            i <= j <= v@.len(),
            p == (|c: char| is_space(c)),
            trimmed(v@) == strip_end(v@.subrange(i as int, j as int), p),
        decreases j,
    {
        assert(v@.subrange(i as int, j as int).drop_last() =~= v@.subrange(i as int, j - 1));
        j -= 1;
    }
    cut(v, i, j)
}

/// A text without the `q`s around it.
pub fn unquote(v: &Vec<char>, q: char) -> (r: Vec<char>)
    ensures
        r@ == unquoted(v@, q),
{
    let ghost p = only(q);
    let mut i: usize = 0;
    assert(v@.skip(0) =~= v@);
    while i < v.len() && v[i] == q
        invariant
            i <= v@.len(),
            p == only(q),
            strip_start(v@, p) == strip_start(v@.skip(i as int), p),
        decreases v@.len() - i,
    {
        assert(v@.skip(i as int).drop_first() =~= v@.skip(i + 1));
        i += 1;
    }
    let mut j: usize = v.len();
    assert(v@.subrange(i as int, j as int) =~= v@.skip(i as int));
    while j > i && v[j - 1] == q
        invariant
            i <= j <= v@.len(),
            p == only(q),
            unquoted(v@, q) == strip_end(v@.subrange(i as int, j as int), p),
        decreases j,
    {
        assert(v@.subrange(i as int, j as int).drop_last() =~= v@.subrange(i as int, j - 1));
        j -= 1;
    }
    cut(v, i, j)
}

/// Where the first `c` at or after `from` stands; the length if there is none.
pub fn find_from(v: &Vec<char>, c: char, from: usize) -> (r: usize)
    requires
        from <= v@.len(),
    ensures
        r == from + before(v@.skip(from as int), c),
        from <= r <= v@.len(),
        r < v@.len() ==> v@[r as int] == c,
{
    let mut i: usize = from;
    while i < v.len() && v[i] != c
        invariant
            from <= i <= v@.len(),
            from + before(v@.skip(from as int), c) == i + before(v@.skip(i as int), c),
        decreases v@.len() - i,
    {
        assert(v@.skip(i as int).drop_first() =~= v@.skip(i + 1));
        i += 1;
    }
    i
}

/// What stands after the last `c`.
pub fn tail_after(v: &Vec<char>, c: char) -> (r: Vec<char>)
    ensures
        r@ == after_last(v@, c),
{
    let mut i: usize = v.len();
    assert(v@.take(i as int) =~= v@);
    assert(v@.skip(i as int) =~= Seq::<char>::empty());
    assert(after_last(v@, c) =~= after_last(v@.take(i as int), c) + v@.skip(i as int));
    while i > 0 && v[i - 1] != c
        invariant
            i <= v@.len(),
            after_last(v@, c) == after_last(v@.take(i as int), c) + v@.skip(i as int),
        decreases i,
    {
        assert(v@.take(i as int).drop_last() =~= v@.take(i - 1));
        assert(v@.take(i as int).last() == v@[i - 1]);
        assert(after_last(v@.take(i - 1), c).push(v@[i - 1]) + v@.skip(i as int) =~= after_last(
            v@.take(i - 1),
            c,
        ) + v@.skip(i - 1));
        i -= 1;
    }
    assert(after_last(v@.take(i as int), c) =~= Seq::<char>::empty());
    assert(v@.subrange(i as int, v@.len() as int) =~= v@.skip(i as int));
    assert(Seq::<char>::empty() + v@.skip(i as int) =~= v@.skip(i as int));
    cut(v, i, v.len())
}

/// The views of character vectors.
pub open spec fn views(v: Seq<Vec<char>>) -> Seq<Seq<char>> {
    v.map_values(|s: Vec<char>| s@)
}

/// The lines of a text.
pub fn lines(v: &Vec<char>) -> (r: Vec<Vec<char>>)
    ensures
        views(r@) == lines_of(v@),
{
    let mut out: Vec<Vec<char>> = Vec::new();
    let mut i: usize = 0;
    assert(v@.skip(0) =~= v@);
    assert(views(out@) + lines_of(v@) =~= lines_of(v@));
    while i < v.len()
        invariant
            i <= v@.len(),
            views(out@) + lines_of(v@.skip(i as int)) == lines_of(v@),
        decreases v@.len() - i,
    {
        let ghost rest = v@.skip(i as int);
        let ghost done = views(out@);
        let end = find_from(v, '\n', i);
        if end == v.len() {
            let line = cut(v, i, end);
            assert(line@ =~= rest);
            out.push(line);
            assert(views(out@) =~= done + seq![rest]);
            assert(v@.skip(end as int) =~= Seq::<char>::empty());
            assert(views(out@) + lines_of(v@.skip(end as int)) =~= done + lines_of(rest));
            i = end;
        } else {
            let mut to: usize = end;
            assert(rest.take(end - i) =~= v@.subrange(i as int, end as int));
            if end > i && v[end - 1] == '\r' {
                to = end - 1;
                assert(v@.subrange(i as int, end as int).drop_last() =~= v@.subrange(
                    i as int,
                    end - 1,
                ));
            }
            let line = cut(v, i, to);
            assert(line@ =~= without_cr(rest.take(end - i)));
            out.push(line);
            assert(views(out@) =~= done.push(line@));
            assert(rest.skip(end - i + 1) =~= v@.skip(end + 1));
            assert(views(out@) + lines_of(v@.skip(end + 1)) =~= done + lines_of(rest));
            i = end + 1;
        }
    }
    assert(v@.skip(i as int) =~= Seq::<char>::empty());
    assert(views(out@) + Seq::<Seq<char>>::empty() =~= views(out@));
    out
}

/// How many bytes a character takes in UTF-8.
pub fn byte_width(c: char) -> (r: usize)
    ensures
        r == width(c),
{
    let code = c as u32;
    if code < 0x80 {
        1
    } else if code < 0x800 {
        2
    } else if code < 0x10000 {
        3
    } else {
        4
    }
}

/// What is left of a text after its first `n` bytes in UTF-8.
pub fn skip_bytes(v: &Vec<char>, n: usize) -> (r: Option<Vec<char>>)
    ensures
        match r {
            Some(rest) => after_bytes(v@, n as nat) == Some(rest@),
            None => after_bytes(v@, n as nat) is None,
        },
{
    let mut i: usize = 0;
    let mut left: usize = n;
    assert(v@.skip(0) =~= v@);
    while left > 0
        invariant
            i <= v@.len(),
            after_bytes(v@, n as nat) == after_bytes(v@.skip(i as int), left as nat),
        decreases left,
    {
        if i == v.len() {
            return None;
        }
        assert(v@.skip(i as int).first() == v@[i as int]);
        let w = byte_width(v[i]);
        if w > left {
            return None;
        }
        assert(v@.skip(i as int).drop_first() =~= v@.skip(i + 1));
        left -= w;
        i += 1;
    }
    assert(v@.subrange(i as int, v@.len() as int) =~= v@.skip(i as int));
    Some(cut(v, i, v.len()))
}

/// How many bytes a text takes in UTF-8.
pub fn byte_len(s: &str) -> (r: usize)
    ensures
        r == vstd::utf8::encode_utf8(s@).len(),
{
    s.as_bytes().len()
}

/// A text with each ASCII capital lowered.
pub fn lower_ascii(v: &Vec<char>) -> (r: Vec<char>)
    ensures
        r@ == ascii_lowered(v@),
{
    let mut out: Vec<char> = Vec::new();
    let mut i: usize = 0;
    while i < v.len()
        invariant
            i <= v@.len(),
            out@ == ascii_lowered(v@.take(i as int)),
        decreases v@.len() - i,
    {
        let c = v[i];
        let l = if 'A' <= c && c <= 'Z' {
            (c as u8 + 32) as char
        } else {
            c
        };
        assert(l == ascii_lower(c));
        out.push(l);
        assert(out@ =~= ascii_lowered(v@.take(i + 1)));
        i += 1;
    }
    assert(v@.take(v@.len() as int) =~= v@);
    out
}

/// More digits write a number that is not smaller.
proof fn lemma_digits_grow(s: Seq<char>, i: int)
    requires
        0 <= i <= s.len(),
        s.all(|c: char| is_digit(c)),
    ensures
        digits_value(s.take(i)) <= digits_value(s),
    decreases s.len(),
{
    if i < s.len() {
        assert(is_digit(s.last())) by {
            assert(s.all(|c: char| is_digit(c)));
            assert((|c: char| is_digit(c))(s[s.len() - 1]));
        }
        assert(s.drop_last().all(|c: char| is_digit(c))) by {
            assert forall|k: int| 0 <= k < s.drop_last().len() implies (|c: char| is_digit(c))(
                #[trigger] s.drop_last()[k],
            ) by {
                assert((|c: char| is_digit(c))(s[k]));
            }
        }
        lemma_digits_grow(s.drop_last(), i);
        assert(s.drop_last().take(i) =~= s.take(i));
    } else {
        assert(s.take(i) =~= s);
    }
}

/// Reads a `u32`.
pub fn parse_u32(v: &Vec<char>) -> (r: Option<u32>)
    ensures
        r == u32_of(v@),
{
    let mut i: usize = 0;
    if v.len() > 0 && v[0] == '+' {
        i = 1;
    }
    let ghost digits = v@.skip(i as int);
    let start: usize = i;
    assert(start == 0 ==> digits =~= v@);
    assert(start == 1 ==> digits =~= v@.drop_first());
    if i == v.len() {
        return None;
    }
    let mut n: u64 = 0;
    while i < v.len()
        invariant
            start <= i <= v@.len(),
            digits == v@.skip(start as int),
            u32_of(v@) == (if digits.len() > 0 && digits.all(|c: char| is_digit(c)) && digits_value(
                digits,
            ) <= u32::MAX {
                Some(digits_value(digits) as u32)
            } else {
                None
            }),
            n == digits_value(digits.take(i - start)),
            n <= u32::MAX,
            digits.take(i - start).all(|c: char| is_digit(c)),
        decreases v@.len() - i,
    {
        let c = v[i];
        assert(digits[i - start] == c);
        if c < '0' || '9' < c {
            assert(!(|c: char| is_digit(c))(digits[i - start]));
            return None;
        }
        let ghost more = digits.take(i + 1 - start);
        assert(more.drop_last() =~= digits.take(i - start));
        assert(more.last() == c);
        n = n * 10 + (c as u64 - 48);
        if n > 0xffff_ffff {
            proof {
                if digits.all(|c: char| is_digit(c)) {
                    lemma_digits_grow(digits, i + 1 - start);
                }
            }
            return None;
        }
        assert(more.all(|c: char| is_digit(c))) by {
            assert forall|k: int| 0 <= k < more.len() implies (|c: char| is_digit(c))(
                #[trigger] more[k],
            ) by {
                if k < i - start {
                    assert((|c: char| is_digit(c))(digits.take(i - start)[k]));
                }
            }
        }
        i += 1;
    }
    assert(digits.take(i - start) =~= digits);
    Some(n as u32)
}

/// The character of a digit.
fn digit_char(d: u64) -> (r: char)
    requires
        d < 10,
    ensures
        r == digit(d as nat),
{
    (48 + d as u8) as char
}

/// Appends a number in decimal.
pub fn push_decimal(out: &mut String, n: u64)
    ensures
        final(out)@ == old(out)@ + decimal(n as nat),
    decreases n,
{
    if n < 10 {
        out.push(digit_char(n));
        assert(out@ =~= old(out)@ + decimal(n as nat));
    } else {
        push_decimal(out, n / 10);
        out.push(digit_char(n % 10));
        assert(out@ =~= old(out)@ + decimal(n as nat));
    }
}

/// Appends a number below one hundred in two digits.
pub fn push_two_digits(out: &mut String, n: u64)
    requires
        n < 100,
    ensures
        final(out)@ == old(out)@ + two_digits(n as nat),
{
    out.push(digit_char(n / 10));
    out.push(digit_char(n % 10));
    assert(out@ =~= old(out)@ + two_digits(n as nat));
}

} // verus!
