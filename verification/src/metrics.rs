//! The live metrics of the service, in the text format of Prometheus: one
//! sample a line, `name{labels} value`, with comments after `#`.

use vstd::prelude::*;
use crate::command::Ran;
use crate::text::{
    before, begins, chars_of, contains, cut, digits_value, find_from, has_text, is_digit, lines,
    lines_of, starts_with, tail_after, trim, trimmed, views, after_last, decimal, push_decimal,
};

verus! {

broadcast use vstd::string::group_string_axioms;

/// A number that goes no higher than a `u64`.
pub open spec fn capped(n: nat) -> nat {
    if n > u64::MAX {
        u64::MAX as nat
    } else {
        n
    }
}

/// Whether a text is digits only.
pub open spec fn all_digits(s: Seq<char>) -> bool {
    forall|i: int| 0 <= i < s.len() ==> is_digit(#[trigger] s[i])
}

/// The digits of a number before its exponent, without the point.
pub open spec fn mantissa(s: Seq<char>) -> Seq<char> {
    let m = s.take(before(s, 'e') as int);
    let p = before(m, '.') as int;
    if p < m.len() {
        m.take(p) + m.skip(p + 1)
    } else {
        m
    }
}

/// How many digits of a number stand before its point, if its exponent is left
/// aside.
pub open spec fn point(s: Seq<char>) -> nat {
    before(s.take(before(s, 'e') as int), '.')
}

/// What stands behind the `e` of a number.
pub open spec fn exponent(s: Seq<char>) -> Seq<char> {
    if before(s, 'e') < s.len() {
        s.skip(before(s, 'e') as int + 1)
    } else {
        Seq::empty()
    }
}

/// Whether an exponent counts down.
pub open spec fn counts_down(x: Seq<char>) -> bool {
    x.len() > 0 && x[0] == '-'
}

/// The digits of an exponent, without its sign.
pub open spec fn unsigned(x: Seq<char>) -> Seq<char> {
    if x.len() > 0 && (x[0] == '-' || x[0] == '+') {
        x.drop_first()
    } else {
        x
    }
}

/// Whether a text is a number that is not negative: digits with at most one
/// point among them, and an exponent of at most three digits, if any.
pub open spec fn is_number(s: Seq<char>) -> bool {
    &&& mantissa(s).len() > 0
    &&& all_digits(mantissa(s))
    &&& all_digits(unsigned(exponent(s)))
    &&& unsigned(exponent(s)).len() <= 3
    &&& before(s, 'e') < s.len() ==> unsigned(exponent(s)).len() > 0
}

/// Where the point of a number stands once its exponent has moved it.
pub open spec fn moved_point(s: Seq<char>) -> int {
    if counts_down(exponent(s)) {
        point(s) - digits_value(unsigned(exponent(s)))
    } else {
        (point(s) + digits_value(unsigned(exponent(s)))) as int
    }
}

/// The first so many digits; noughts follow where there are not as many.
pub open spec fn leading(digits: Seq<char>, n: int) -> Seq<char> {
    Seq::new(
        if n > 0 {
            n as nat
        } else {
            0
        },
        |i: int|
            if i < digits.len() {
                digits[i]
            } else {
                '0'
            },
    )
}

/// The whole part of a number; of any other text, nothing.
pub open spec fn whole_part(s: Seq<char>) -> nat {
    if is_number(s) {
        capped(digits_value(leading(mantissa(s), moved_point(s))))
    } else {
        0
    }
}

/// What follows the name of a sample in its line.
pub open spec fn sample_rest(line: Seq<char>, name: Seq<char>) -> Option<Seq<char>> {
    if begins(line, name) && line.len() > name.len() && (line[name.len() as int] == '{'
        || line[name.len() as int] == ' ') {
        Some(line.skip(name.len() as int))
    } else {
        None
    }
}

/// The number in what follows the name of a sample: the first word behind the
/// labels.
pub open spec fn number_text(rest: Seq<char>) -> Seq<char> {
    let t = trimmed(after_last(rest, '}'));
    t.take(before(t, ' ') as int)
}

/// What a line adds to a metric: its number, if it is a sample of the metric
/// whose labels hold a mark.
pub open spec fn sample(line: Seq<char>, name: Seq<char>, mark: Seq<char>) -> nat {
    match sample_rest(line, name) {
        Some(rest) => if has_text(rest, mark) {
            whole_part(number_text(rest))
        } else {
            0
        },
        None => 0,
    }
}

/// A metric, summed over its samples whose labels hold a mark.
pub open spec fn total(all: Seq<Seq<char>>, name: Seq<char>, mark: Seq<char>) -> nat
    decreases all.len(),
{
    if all.len() == 0 {
        0
    } else {
        capped(total(all.drop_last(), name, mark) + sample(all.last(), name, mark))
    }
}

/// Whether a metric has a sample.
pub open spec fn present(all: Seq<Seq<char>>, name: Seq<char>) -> bool {
    exists|i: int| 0 <= i < all.len() && sample_rest(#[trigger] all[i], name) is Some
}

/// How much is left to consolidate.
#[derive(Debug, Clone, Copy, PartialEq, Eq, Structural)]
pub struct Backlog {
    pub pending: u64,
    pub processing: u64,
    pub failed: u64,
}

/// What the live metrics show.
#[derive(Debug, Clone, Copy, PartialEq, Eq, Structural)]
pub struct Metrics {
    pub llm_calls: u64,
    pub tokens_in: u64,
    pub tokens_out: u64,
    /// Calls of the language model by their purpose.
    pub for_retain: u64,
    pub for_consolidation: u64,
    pub for_verification: u64,
    /// Operations of the service.
    pub retain: u64,
    pub recall: u64,
    pub reflect: u64,
    pub consolidation: u64,
    /// The process of the service.
    pub memory_bytes: u64,
    pub cpu_seconds: u64,
    pub open_fds: u64,
    pub db_pool: u64,
    /// What is left to consolidate, where the service counts it.
    pub backlog: Option<Backlog>,
}

/// The metrics that some lines hold.
pub open spec fn metrics_in(all: Seq<Seq<char>>) -> Metrics {
    let calls = "hindsight_llm_calls_total"@;
    let operations = "hindsight_operation_operations_total"@;
    Metrics {
        llm_calls: total(all, calls, ""@) as u64,
        tokens_in: total(all, "hindsight_llm_tokens_input_tokens_total"@, ""@) as u64,
        tokens_out: total(all, "hindsight_llm_tokens_output_tokens_total"@, ""@) as u64,
        for_retain: total(all, calls, "scope=\"retain"@) as u64,
        for_consolidation: total(all, calls, "scope=\"consolidation"@) as u64,
        for_verification: total(all, calls, "scope=\"verification"@) as u64,
        retain: total(all, operations, "operation=\"retain\""@) as u64,
        recall: total(all, operations, "operation=\"recall\""@) as u64,
        reflect: total(all, operations, "operation=\"reflect\""@) as u64,
        consolidation: total(all, operations, "operation=\"consolidation\""@) as u64,
        memory_bytes: total(all, "hindsight_process_memory_bytes"@, ""@) as u64,
        cpu_seconds: total(all, "hindsight_process_cpu_seconds"@, ""@) as u64,
        open_fds: total(all, "hindsight_process_open_fds"@, ""@) as u64,
        db_pool: total(all, "hindsight_db_pool_size"@, ""@) as u64,
        backlog: backlog_in(all),
    }
}

/// The backlog that some lines hold, if they hold one.
pub open spec fn backlog_in(all: Seq<Seq<char>>) -> Option<Backlog> {
    let name = "hindsight_consolidation_backlog"@;
    if present(all, name) {
        Some(
            Backlog {
                pending: total(all, name, "=\"pending\""@) as u64,
                processing: total(all, name, "=\"processing\""@) as u64,
                failed: total(all, name, "=\"failed\""@) as u64,
            },
        )
    } else {
        None
    }
}

/// A number that goes no higher than a `u64`.
fn cap(n: u128) -> (r: u64)
    ensures
        r == capped(n as nat),
{
    if n > u64::MAX as u128 {
        u64::MAX
    } else {
        n as u64
    }
}

/// Whether some characters are digits only.
fn are_digits(v: &Vec<char>) -> (r: bool)
    ensures
        r == all_digits(v@),
{
    let mut i: usize = 0;
    while i < v.len()
        invariant
            i <= v@.len(),
            forall|j: int| 0 <= j < i ==> is_digit(#[trigger] v@[j]),
        decreases v@.len() - i,
    {
        if !(v[i] >= '0' && v[i] <= '9') {
            assert(!is_digit(v@[i as int]));
            return false;
        }
        i = i + 1;
    }
    true
}

/// The number that some leading digits write.
fn leading_value(digits: &Vec<char>, n: u128) -> (r: u64)
    requires
        all_digits(digits@),
    ensures
        r == capped(digits_value(leading(digits@, n as int))),
{
    let ghost all = leading(digits@, n as int);
    let mut r: u64 = 0;
    let mut i: u128 = 0;
    assert(all.take(0) =~= Seq::<char>::empty());
    while i < n
        invariant
            i <= n,
            all == leading(digits@, n as int),
            all_digits(digits@),
            r == capped(digits_value(all.take(i as int))),
        decreases n - i,
    {
        let d: u64 = if i < digits.len() as u128 {
            (digits[i as usize] as u32 - 48) as u64
        } else {
            0
        };
        proof {
            let more = all.take(i + 1);
            assert(more.drop_last() =~= all.take(i as int));
            assert(more.last() == all[i as int]);
            assert(i < digits@.len() ==> is_digit(digits@[i as int]));
            assert(digits_value(more) == digits_value(all.take(i as int)) * 10 + d);
        }
        r = cap(r as u128 * 10 + d as u128);
        i = i + 1;
    }
    assert(all.take(n as int) =~= all);
    r
}

/// The number that at most three digits write.
fn short_value(digits: &Vec<char>) -> (r: usize)
    requires
        all_digits(digits@),
        digits@.len() <= 3,
    ensures
        r == digits_value(digits@),
        r < 1000,
{
    let n = digits.len();
    assert(leading(digits@, n as int) =~= digits@);
    proof {
        reveal_with_fuel(digits_value, 4);
        let s = digits@;
        if n >= 1 {
            assert(is_digit(s[n - 1]));
            assert(s.drop_last().len() == n - 1);
        }
        if n >= 2 {
            assert(s.drop_last().last() == s[n - 2] && is_digit(s[n - 2]));
        }
        if n >= 3 {
            assert(s.drop_last().drop_last().last() == s[n - 3] && is_digit(s[n - 3]));
        }
        assert(digits_value(s) < 1000);
    }
    leading_value(digits, n as u128) as usize
}

/// The whole part of a number.
pub fn parse_whole(s: &Vec<char>) -> (r: u64)
    ensures
        r == whole_part(s@),
{
    let e = find_from(s, 'e', 0);
    assert(s@.skip(0) =~= s@);
    let m = cut(s, 0, e);
    assert(m@ =~= s@.take(before(s@, 'e') as int));
    let p = find_from(&m, '.', 0);
    assert(m@.skip(0) =~= m@);
    let mut digits = cut(&m, 0, p);
    assert(digits@ =~= m@.take(p as int));
    if p < m.len() {
        let mut fraction = cut(&m, p + 1, m.len());
        assert(fraction@ =~= m@.skip(p + 1));
        digits.append(&mut fraction);
    }
    assert(digits@ =~= mantissa(s@));
    let x = if e < s.len() {
        cut(s, e + 1, s.len())
    } else {
        Vec::new()
    };
    assert(x@ =~= exponent(s@));
    let down = x.len() > 0 && x[0] == '-';
    let shift = if x.len() > 0 && (x[0] == '-' || x[0] == '+') {
        cut(&x, 1, x.len())
    } else {
        cut(&x, 0, x.len())
    };
    assert(shift@ =~= unsigned(exponent(s@)));
    if digits.len() == 0 || !are_digits(&digits) || !are_digits(&shift) || shift.len() > 3 || (e
        < s.len() && shift.len() == 0) {
        return 0;
    }
    let by = short_value(&shift);
    let at: u128 = if !down {
        p as u128 + by as u128
    } else if by < p {
        (p - by) as u128
    } else {
        0
    };
    proof {
        if moved_point(s@) <= 0 {
            assert(leading(mantissa(s@), moved_point(s@)) =~= leading(mantissa(s@), 0));
        }
    }
    leading_value(&digits, at)
}

/// What follows the name of a sample in its line.
fn rest_of_sample(line: &Vec<char>, name: &str) -> (r: Option<Vec<char>>)
    ensures
        match r {
            Some(rest) => sample_rest(line@, name@) == Some(rest@),
            None => sample_rest(line@, name@) is None,
        },
{
    let n = chars_of(name).len();
    if !starts_with(line, name) || line.len() <= n {
        return None;
    }
    if line[n] != '{' && line[n] != ' ' {
        return None;
    }
    let rest = cut(line, n, line.len());
    assert(rest@ =~= line@.skip(n as int));
    Some(rest)
}

/// Whether a metric has a sample.
fn is_present(all: &Vec<Vec<char>>, name: &str) -> (r: bool)
    ensures
        r == present(views(all@), name@),
{
    let ghost v = views(all@);
    let mut i: usize = 0;
    while i < all.len()
        invariant
            i <= all@.len(),
            v == views(all@),
            forall|j: int| 0 <= j < i ==> sample_rest(#[trigger] v[j], name@) is None,
        decreases all@.len() - i,
    {
        assert(v[i as int] == all@[i as int]@);
        if rest_of_sample(&all[i], name).is_some() {
            return true;
        }
        i = i + 1;
    }
    false
}

/// Reads the backlog.
fn read_backlog(all: &Vec<Vec<char>>) -> (r: Option<Backlog>)
    ensures
        r == backlog_in(views(all@)),
{
    let name = "hindsight_consolidation_backlog";
    if is_present(all, name) {
        Some(
            Backlog {
                pending: sum_of(all, name, "=\"pending\""),
                processing: sum_of(all, name, "=\"processing\""),
                failed: sum_of(all, name, "=\"failed\""),
            },
        )
    } else {
        None
    }
}

/// What a line adds to a metric.
fn sample_value(line: &Vec<char>, name: &str, mark: &str) -> (r: u64)
    ensures
        r == sample(line@, name@, mark@),
{
    let rest = match rest_of_sample(line, name) {
        Some(rest) => rest,
        None => {
            return 0;
        },
    };
    if !contains(&rest, mark) {
        return 0;
    }
    let t = trim(&tail_after(&rest, '}'));
    let end = find_from(&t, ' ', 0);
    assert(t@.skip(0) =~= t@);
    let word = cut(&t, 0, end);
    assert(word@ =~= number_text(rest@));
    parse_whole(&word)
}

/// A metric, summed over its samples whose labels hold a mark.
fn sum_of(all: &Vec<Vec<char>>, name: &str, mark: &str) -> (r: u64)
    ensures
        r == total(views(all@), name@, mark@),
{
    let ghost v = views(all@);
    let mut r: u64 = 0;
    let mut i: usize = 0;
    while i < all.len()
        invariant
            i <= all@.len(),
            v == views(all@),
            r == total(v.take(i as int), name@, mark@),
        decreases all@.len() - i,
    {
        assert(v.take(i + 1).drop_last() =~= v.take(i as int));
        assert(v.take(i + 1).last() == all@[i as int]@);
        r = cap(r as u128 + sample_value(&all[i], name, mark) as u128);
        i = i + 1;
    }
    assert(v.take(i as int) =~= v);
    r
}

/// Reads the metrics in a text.
pub fn parse_metrics(text: &str) -> (r: Metrics)
    ensures
        r == metrics_in(lines_of(text@)),
{
    let all = lines(&chars_of(text));
    let calls = "hindsight_llm_calls_total";
    let operations = "hindsight_operation_operations_total";
    Metrics {
        llm_calls: sum_of(&all, calls, ""),
        tokens_in: sum_of(&all, "hindsight_llm_tokens_input_tokens_total", ""),
        tokens_out: sum_of(&all, "hindsight_llm_tokens_output_tokens_total", ""),
        for_retain: sum_of(&all, calls, "scope=\"retain"),
        for_consolidation: sum_of(&all, calls, "scope=\"consolidation"),
        for_verification: sum_of(&all, calls, "scope=\"verification"),
        retain: sum_of(&all, operations, "operation=\"retain\""),
        recall: sum_of(&all, operations, "operation=\"recall\""),
        reflect: sum_of(&all, operations, "operation=\"reflect\""),
        consolidation: sum_of(&all, operations, "operation=\"consolidation\""),
        memory_bytes: sum_of(&all, "hindsight_process_memory_bytes", ""),
        cpu_seconds: sum_of(&all, "hindsight_process_cpu_seconds", ""),
        open_fds: sum_of(&all, "hindsight_process_open_fds", ""),
        db_pool: sum_of(&all, "hindsight_db_pool_size", ""),
        backlog: read_backlog(&all),
    }
}

/// The metrics in the reply of the service, if it gave one.
pub open spec fn metrics_read(reply: Ran) -> Option<Metrics> {
    match reply.good() {
        Some(text) => Some(metrics_in(lines_of(text))),
        None => None,
    }
}

/// The metrics in the reply of the service, if it gave one.
pub fn read_metrics(reply: &Ran) -> (r: Option<Metrics>)
    ensures
        r == metrics_read(*reply),
{
    match reply.output() {
        Some(text) => Some(parse_metrics(text)),
        None => None,
    }
}

/// How much a counter grew since it was last read. A counter that shrank began
/// anew.
pub open spec fn growth(now: u64, earlier: u64) -> nat {
    if now >= earlier {
        (now - earlier) as nat
    } else {
        now as nat
    }
}

/// A counter and how much it grew.
pub open spec fn counted(now: u64, earlier: u64) -> Seq<char> {
    decimal(now as nat) + " (+"@ + decimal(growth(now, earlier)) + "/scan)"@
}

/// What is shown of the backlog, where there is one.
pub open spec fn backlog_text(b: Option<Backlog>) -> Seq<char> {
    match b {
        Some(b) => "\nBacklog: pending="@ + decimal(b.pending as nat) + " processing="@ + decimal(
            b.processing as nat,
        ) + " failed="@ + decimal(b.failed as nat),
        None => Seq::empty(),
    }
}

/// What is shown of the metrics, given what was read before.
pub open spec fn metrics_text(now: Metrics, earlier: Metrics) -> Seq<char> {
    "LLM calls: "@ + counted(now.llm_calls, earlier.llm_calls) + "\nTokens: in="@ + counted(
        now.tokens_in,
        earlier.tokens_in,
    ) + " out="@ + counted(now.tokens_out, earlier.tokens_out)
        + "\nLLM calls by scope: retain="@ + decimal(now.for_retain as nat) + " consolidation="@
        + decimal(now.for_consolidation as nat) + " verification="@ + decimal(
        now.for_verification as nat,
    ) + "\nOperations: retain="@ + counted(now.retain, earlier.retain) + " recall="@ + counted(
        now.recall,
        earlier.recall,
    ) + " reflect="@ + counted(now.reflect, earlier.reflect) + " consolidation="@ + counted(
        now.consolidation,
        earlier.consolidation,
    ) + "\nProcess: rss="@ + decimal((now.memory_bytes / 1048576) as nat) + " MB cpu="@ + decimal(
        now.cpu_seconds as nat,
    ) + " s fds="@ + decimal(now.open_fds as nat) + " db_pool="@ + decimal(now.db_pool as nat)
        + backlog_text(now.backlog)
}

/// Appends a counter and how much it grew.
pub fn push_counted(out: &mut String, now: u64, earlier: u64)
    ensures
        final(out)@ == old(out)@ + counted(now, earlier),
{
    push_decimal(out, now);
    out.append(" (+");
    push_decimal(out, if now >= earlier {
        now - earlier
    } else {
        now
    });
    out.append("/scan)");
    assert(out@ =~= old(out)@ + counted(now, earlier));
}

/// What is shown of the metrics.
pub fn show_metrics(now: &Metrics, earlier: &Metrics) -> (r: String)
    ensures
        r@ == metrics_text(*now, *earlier),
{
    let mut r = "LLM calls: ".to_owned();
    push_counted(&mut r, now.llm_calls, earlier.llm_calls);
    r.append("\nTokens: in=");
    push_counted(&mut r, now.tokens_in, earlier.tokens_in);
    r.append(" out=");
    push_counted(&mut r, now.tokens_out, earlier.tokens_out);
    r.append("\nLLM calls by scope: retain=");
    push_decimal(&mut r, now.for_retain);
    r.append(" consolidation=");
    push_decimal(&mut r, now.for_consolidation);
    r.append(" verification=");
    push_decimal(&mut r, now.for_verification);
    r.append("\nOperations: retain=");
    push_counted(&mut r, now.retain, earlier.retain);
    r.append(" recall=");
    push_counted(&mut r, now.recall, earlier.recall);
    r.append(" reflect=");
    push_counted(&mut r, now.reflect, earlier.reflect);
    r.append(" consolidation=");
    push_counted(&mut r, now.consolidation, earlier.consolidation);
    r.append("\nProcess: rss=");
    push_decimal(&mut r, now.memory_bytes / 1048576);
    r.append(" MB cpu=");
    push_decimal(&mut r, now.cpu_seconds);
    r.append(" s fds=");
    push_decimal(&mut r, now.open_fds);
    r.append(" db_pool=");
    push_decimal(&mut r, now.db_pool);
    push_backlog(&mut r, &now.backlog);
    r
}

/// Appends what is shown of the backlog.
fn push_backlog(out: &mut String, b: &Option<Backlog>)
    ensures
        final(out)@ == old(out)@ + backlog_text(*b),
{
    if let Some(b) = b {
        out.append("\nBacklog: pending=");
        push_decimal(out, b.pending);
        out.append(" processing=");
        push_decimal(out, b.processing);
        out.append(" failed=");
        push_decimal(out, b.failed);
    }
    assert(out@ =~= old(out)@ + backlog_text(*b));
}

/// Comments, and samples of other metrics, add nothing: a line adds to a metric
/// only where it begins with the metric's name and labels or a number follow.
pub proof fn others_add_nothing(line: Seq<char>, name: Seq<char>, mark: Seq<char>)
    requires
        name.len() > 0,
        line.len() == 0 || line[0] != name[0] || line.len() <= name.len() || (line[name.len() as int]
            != '{' && line[name.len() as int] != ' '),
    ensures
        sample(line, name, mark) == 0,
{
    if begins(line, name) {
        assert(line.subrange(0, name.len() as int)[0] == name[0]);
    }
}

/// A metric without a mark counts every sample that it counts with one.
pub proof fn marks_select(all: Seq<Seq<char>>, name: Seq<char>, mark: Seq<char>)
    ensures
        total(all, name, mark) <= total(all, name, ""@),
    decreases all.len(),
{
    if all.len() > 0 {
        marks_select(all.drop_last(), name, mark);
        let line = all.last();
        reveal_strlit("");
        if sample_rest(line, name) is Some {
            let rest = sample_rest(line, name)->0;
            assert(rest.subrange(0, 0) =~= ""@);
            assert(crate::text::stands_at(rest, ""@, 0));
        }
    }
}

} // verus!
