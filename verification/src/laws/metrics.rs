//! Laws of the live metrics and of the local models.

use vstd::prelude::*;
use crate::command::Ran;
use crate::laws::text::{
    counts_up_to_the_first, decimals_differ, decimals_write_numbers, each, end_is_found,
    keeps_what_follows_the_last, longer_texts_hold_as_much, longer_texts_keep, trims_the_space_around,
};
use crate::metrics::{
    capped, counted, exponent, leading, mantissa, metrics_in, metrics_read, metrics_text,
    number_text, point, present, sample, sample_rest, total, unsigned, whole_part, Backlog, Metrics,
};
use crate::models::{models_text, Models};
use crate::text::{before, begins, decimal, digits_value, ends, has_text, is_digit, is_space, lines_of};

verus! {

broadcast use vstd::string::group_string_axioms;

broadcast proof fn longer_texts_begin_alike(s: Seq<char>, t: Seq<char>, part: Seq<char>)
    requires
        begins(s, part),
    ensures
        #[trigger] begins(s + t, part),
{
    assert((s + t).subrange(0, part.len() as int) =~= s.subrange(0, part.len() as int));
}

proof fn ends_are_found(s: Seq<char>, a: Seq<char>, b: Seq<char>, c: Seq<char>)
    ensures
        has_text(s + a + b, a + b),
        has_text(s + a + b + c, a + b + c),
{
    let two = a + b;
    let three = a + b + c;
    vstd::seq_lib::lemma_concat_associative(s, a, b);
    vstd::seq_lib::lemma_concat_associative(s, two, c);
    end_is_found(s, two);
    end_is_found(s, three);
}

proof fn counters_are_found(s: Seq<char>, lit: Seq<char>, now: u64, earlier: u64, d: u64)
    requires
        now >= earlier ==> now == earlier + d,
        now < earlier ==> d == now,
    ensures
        has_text(
            s + lit + counted(now, earlier),
            lit + decimal(now as nat) + " (+"@ + decimal(d as nat) + "/scan)"@,
        ),
{
    ends_are_found(s, lit, counted(now, earlier), Seq::empty());
    assert(lit + counted(now, earlier) =~= lit + decimal(now as nat) + " (+"@ + decimal(d as nat)
        + "/scan)"@);
}

/// Behind each counter stands its number and, in brackets, how much it grew since
/// the earlier reading: the difference of the two, or all of it where the counter
/// began anew.
pub proof fn each_counter_shows_its_growth(now: Metrics, earlier: Metrics, d: Metrics)
    requires
        now.llm_calls >= earlier.llm_calls ==> now.llm_calls == earlier.llm_calls + d.llm_calls,
        now.llm_calls < earlier.llm_calls ==> d.llm_calls == now.llm_calls,
        now.tokens_in >= earlier.tokens_in ==> now.tokens_in == earlier.tokens_in + d.tokens_in,
        now.tokens_in < earlier.tokens_in ==> d.tokens_in == now.tokens_in,
        now.tokens_out >= earlier.tokens_out ==> now.tokens_out == earlier.tokens_out + d.tokens_out,
        now.tokens_out < earlier.tokens_out ==> d.tokens_out == now.tokens_out,
        now.retain >= earlier.retain ==> now.retain == earlier.retain + d.retain,
        now.retain < earlier.retain ==> d.retain == now.retain,
        now.recall >= earlier.recall ==> now.recall == earlier.recall + d.recall,
        now.recall < earlier.recall ==> d.recall == now.recall,
        now.reflect >= earlier.reflect ==> now.reflect == earlier.reflect + d.reflect,
        now.reflect < earlier.reflect ==> d.reflect == now.reflect,
        now.consolidation >= earlier.consolidation ==> now.consolidation == earlier.consolidation
            + d.consolidation,
        now.consolidation < earlier.consolidation ==> d.consolidation == now.consolidation,
    ensures
        has_text(
            metrics_text(now, earlier),
            "LLM calls: "@ + decimal(now.llm_calls as nat) + " (+"@ + decimal(d.llm_calls as nat)
                + "/scan)"@,
        ),
        has_text(
            metrics_text(now, earlier),
            "\nTokens: in="@ + decimal(now.tokens_in as nat) + " (+"@ + decimal(d.tokens_in as nat)
                + "/scan)"@,
        ),
        has_text(
            metrics_text(now, earlier),
            " out="@ + decimal(now.tokens_out as nat) + " (+"@ + decimal(d.tokens_out as nat)
                + "/scan)"@,
        ),
        has_text(
            metrics_text(now, earlier),
            "\nOperations: retain="@ + decimal(now.retain as nat) + " (+"@ + decimal(
                d.retain as nat,
            ) + "/scan)"@,
        ),
        has_text(
            metrics_text(now, earlier),
            " recall="@ + decimal(now.recall as nat) + " (+"@ + decimal(d.recall as nat)
                + "/scan)"@,
        ),
        has_text(
            metrics_text(now, earlier),
            " reflect="@ + decimal(now.reflect as nat) + " (+"@ + decimal(d.reflect as nat)
                + "/scan)"@,
        ),
        has_text(
            metrics_text(now, earlier),
            " consolidation="@ + decimal(now.consolidation as nat) + " (+"@ + decimal(
                d.consolidation as nat,
            ) + "/scan)"@,
        ),
{
    broadcast use longer_texts_keep;

    let s0 = Seq::<char>::empty();
    let s1 = "LLM calls: "@ + counted(now.llm_calls, earlier.llm_calls);
    let s2 = s1 + "\nTokens: in="@ + counted(now.tokens_in, earlier.tokens_in);
    let s3 = s2 + " out="@ + counted(now.tokens_out, earlier.tokens_out);
    let s4 = s3 + "\nLLM calls by scope: retain="@ + decimal(now.for_retain as nat)
        + " consolidation="@ + decimal(now.for_consolidation as nat) + " verification="@ + decimal(
        now.for_verification as nat,
    );
    let s5 = s4 + "\nOperations: retain="@ + counted(now.retain, earlier.retain);
    let s6 = s5 + " recall="@ + counted(now.recall, earlier.recall);
    let s7 = s6 + " reflect="@ + counted(now.reflect, earlier.reflect);
    let s8 = s7 + " consolidation="@ + counted(now.consolidation, earlier.consolidation);
    counters_are_found(s0, "LLM calls: "@, now.llm_calls, earlier.llm_calls, d.llm_calls);
    assert(s0 + "LLM calls: "@ =~= "LLM calls: "@);
    counters_are_found(s1, "\nTokens: in="@, now.tokens_in, earlier.tokens_in, d.tokens_in);
    counters_are_found(s2, " out="@, now.tokens_out, earlier.tokens_out, d.tokens_out);
    counters_are_found(s4, "\nOperations: retain="@, now.retain, earlier.retain, d.retain);
    counters_are_found(s5, " recall="@, now.recall, earlier.recall, d.recall);
    counters_are_found(s6, " reflect="@, now.reflect, earlier.reflect, d.reflect);
    counters_are_found(
        s7,
        " consolidation="@,
        now.consolidation,
        earlier.consolidation,
        d.consolidation,
    );
}

/// The numbers that are not counted by the scan stand in the text as they were
/// read; the memory in whole mebibytes.
pub proof fn each_reading_is_shown(now: Metrics, earlier: Metrics, mebibytes: nat, b: Backlog)
    requires
        mebibytes * 1048576 <= now.memory_bytes < (mebibytes + 1) * 1048576,
    ensures
        has_text(
            metrics_text(now, earlier),
            "\nLLM calls by scope: retain="@ + decimal(now.for_retain as nat) + " consolidation="@,
        ),
        has_text(
            metrics_text(now, earlier),
            " consolidation="@ + decimal(now.for_consolidation as nat) + " verification="@,
        ),
        has_text(
            metrics_text(now, earlier),
            " verification="@ + decimal(now.for_verification as nat) + "\nOperations: retain="@,
        ),
        has_text(
            metrics_text(now, earlier),
            "\nProcess: rss="@ + decimal(mebibytes) + " MB cpu="@,
        ),
        has_text(
            metrics_text(now, earlier),
            " MB cpu="@ + decimal(now.cpu_seconds as nat) + " s fds="@,
        ),
        has_text(
            metrics_text(now, earlier),
            " s fds="@ + decimal(now.open_fds as nat) + " db_pool="@,
        ),
        now.backlog is None ==> ends(
            metrics_text(now, earlier),
            " db_pool="@ + decimal(now.db_pool as nat),
        ),
        now.backlog == Some(b) ==> ends(
            metrics_text(now, earlier),
            " db_pool="@ + decimal(now.db_pool as nat) + "\nBacklog: pending="@ + decimal(
                b.pending as nat,
            ) + " processing="@ + decimal(b.processing as nat) + " failed="@ + decimal(
                b.failed as nat,
            ),
        ),
{
    broadcast use longer_texts_keep;

    let s3 = "LLM calls: "@ + counted(now.llm_calls, earlier.llm_calls) + "\nTokens: in="@ + counted(
        now.tokens_in,
        earlier.tokens_in,
    ) + " out="@ + counted(now.tokens_out, earlier.tokens_out);
    let l1 = "\nLLM calls by scope: retain="@;
    let d1 = decimal(now.for_retain as nat);
    let l2 = " consolidation="@;
    let d2 = decimal(now.for_consolidation as nat);
    let l3 = " verification="@;
    let d3 = decimal(now.for_verification as nat);
    let l4 = "\nOperations: retain="@;
    ends_are_found(s3, l1, d1, l2);
    ends_are_found(s3 + l1 + d1, l2, d2, l3);
    ends_are_found(s3 + l1 + d1 + l2 + d2, l3, d3, l4);
    let s8 = s3 + l1 + d1 + l2 + d2 + l3 + d3 + l4 + counted(now.retain, earlier.retain)
        + " recall="@ + counted(now.recall, earlier.recall) + " reflect="@ + counted(
        now.reflect,
        earlier.reflect,
    ) + " consolidation="@ + counted(now.consolidation, earlier.consolidation);
    let l5 = "\nProcess: rss="@;
    let d5 = decimal(mebibytes);
    assert((now.memory_bytes / 1048576) as nat == mebibytes);
    let l6 = " MB cpu="@;
    let d6 = decimal(now.cpu_seconds as nat);
    let l7 = " s fds="@;
    let d7 = decimal(now.open_fds as nat);
    let l8 = " db_pool="@;
    let d8 = decimal(now.db_pool as nat);
    ends_are_found(s8, l5, d5, l6);
    ends_are_found(s8 + l5 + d5, l6, d6, l7);
    ends_are_found(s8 + l5 + d5 + l6 + d6, l7, d7, l8);
    let s9 = s8 + l5 + d5 + l6 + d6 + l7 + d7;
    let rest = crate::metrics::backlog_text(now.backlog);
    let text = metrics_text(now, earlier);
    assert(text == s9 + l8 + d8 + rest);
    if now.backlog is None {
        assert(text =~= s9 + (l8 + d8));
        end_is_found(s9, l8 + d8);
    }
    if now.backlog == Some(b) {
        let tail = l8 + d8 + "\nBacklog: pending="@ + decimal(b.pending as nat) + " processing="@
            + decimal(b.processing as nat) + " failed="@ + decimal(b.failed as nat);
        assert(l8 + d8 + rest =~= tail);
        assert(text =~= s9 + (l8 + d8 + rest));
        end_is_found(s9, tail);
    }
}

proof fn growth_is_read(t: Seq<char>, p: Seq<char>, d: nat, e: nat)
    requires
        begins(t, p + decimal(d) + "/scan)"@),
        begins(t, p + decimal(e) + "/scan)"@),
    ensures
        d == e,
{
    reveal_strlit("/scan)");
    decimals_write_numbers(d);
    decimals_write_numbers(e);
    let x = decimal(d);
    let y = decimal(e);
    let a = p + x + "/scan)"@;
    let b = p + y + "/scan)"@;
    let n = p.len() as int;
    assert forall|i: int| 0 <= i < a.len() implies t[i] == #[trigger] a[i] by {
        assert(t.subrange(0, a.len() as int)[i] == a[i]);
    }
    assert forall|i: int| 0 <= i < b.len() implies t[i] == #[trigger] b[i] by {
        assert(t.subrange(0, b.len() as int)[i] == b[i]);
    }
    assert(a[n + x.len()] == '/');
    assert(b[n + y.len()] == '/');
    if x.len() < y.len() {
        assert(b[n + x.len()] == y[x.len() as int]);
        assert((|c: char| is_digit(c))(y[x.len() as int]));
    }
    if y.len() < x.len() {
        assert(a[n + y.len()] == x[y.len() as int]);
        assert((|c: char| is_digit(c))(x[y.len() as int]));
    }
    assert forall|i: int| 0 <= i < x.len() implies x[i] == y[i] by {
        assert(a[n + i] == x[i]);
        assert(b[n + i] == y[i]);
    }
    assert(x =~= y);
    decimals_differ(d, e);
}

proof fn begins_with_itself(s: Seq<char>)
    ensures
        begins(s, s),
{
    assert(s.subrange(0, s.len() as int) =~= s);
}

proof fn counters_are_read(t: Seq<char>, s: Seq<char>, lit: Seq<char>, now: u64, one: u64, two: u64)
    requires
        begins(t, s + lit + counted(now, one)),
        begins(t, s + lit + counted(now, two)),
        one <= now,
        two <= now,
    ensures
        one == two,
{
    let p = s + lit + decimal(now as nat) + " (+"@;
    let d = (now - one) as nat;
    let e = (now - two) as nat;
    assert(s + lit + counted(now, one) =~= p + decimal(d) + "/scan)"@);
    assert(s + lit + counted(now, two) =~= p + decimal(e) + "/scan)"@);
    growth_is_read(t, p, d, e);
}

/// Earlier readings that differ in a counter give different texts.
pub proof fn earlier_readings_make_a_difference(now: Metrics, one: Metrics, two: Metrics)
    requires
        one.llm_calls <= now.llm_calls && two.llm_calls <= now.llm_calls,
        one.tokens_in <= now.tokens_in && two.tokens_in <= now.tokens_in,
        one.tokens_out <= now.tokens_out && two.tokens_out <= now.tokens_out,
        one.retain <= now.retain && two.retain <= now.retain,
        one.recall <= now.recall && two.recall <= now.recall,
        one.reflect <= now.reflect && two.reflect <= now.reflect,
        one.consolidation <= now.consolidation && two.consolidation <= now.consolidation,
        metrics_text(now, one) == metrics_text(now, two),
    ensures
        one.llm_calls == two.llm_calls,
        one.tokens_in == two.tokens_in,
        one.tokens_out == two.tokens_out,
        one.retain == two.retain,
        one.recall == two.recall,
        one.reflect == two.reflect,
        one.consolidation == two.consolidation,
{
    broadcast use longer_texts_begin_alike;

    let t = metrics_text(now, one);
    let s0 = Seq::<char>::empty();
    let l1 = "LLM calls: "@;
    assert(s0 + l1 =~= l1);
    begins_with_itself(s0 + l1 + counted(now.llm_calls, one.llm_calls));
    begins_with_itself(s0 + l1 + counted(now.llm_calls, two.llm_calls));
    counters_are_read(t, s0, l1, now.llm_calls, one.llm_calls, two.llm_calls);
    let s1 = l1 + counted(now.llm_calls, one.llm_calls);
    let l2 = "\nTokens: in="@;
    begins_with_itself(s1 + l2 + counted(now.tokens_in, one.tokens_in));
    begins_with_itself(s1 + l2 + counted(now.tokens_in, two.tokens_in));
    counters_are_read(t, s1, l2, now.tokens_in, one.tokens_in, two.tokens_in);
    let s2 = s1 + l2 + counted(now.tokens_in, one.tokens_in);
    let l3 = " out="@;
    begins_with_itself(s2 + l3 + counted(now.tokens_out, one.tokens_out));
    begins_with_itself(s2 + l3 + counted(now.tokens_out, two.tokens_out));
    counters_are_read(t, s2, l3, now.tokens_out, one.tokens_out, two.tokens_out);
    let s4 = s2 + l3 + counted(now.tokens_out, one.tokens_out) + "\nLLM calls by scope: retain="@
        + decimal(now.for_retain as nat) + " consolidation="@ + decimal(
        now.for_consolidation as nat,
    ) + " verification="@ + decimal(now.for_verification as nat);
    let l5 = "\nOperations: retain="@;
    begins_with_itself(s4 + l5 + counted(now.retain, one.retain));
    begins_with_itself(s4 + l5 + counted(now.retain, two.retain));
    counters_are_read(t, s4, l5, now.retain, one.retain, two.retain);
    let s5 = s4 + l5 + counted(now.retain, one.retain);
    let l6 = " recall="@;
    begins_with_itself(s5 + l6 + counted(now.recall, one.recall));
    begins_with_itself(s5 + l6 + counted(now.recall, two.recall));
    counters_are_read(t, s5, l6, now.recall, one.recall, two.recall);
    let s6 = s5 + l6 + counted(now.recall, one.recall);
    let l7 = " reflect="@;
    begins_with_itself(s6 + l7 + counted(now.reflect, one.reflect));
    begins_with_itself(s6 + l7 + counted(now.reflect, two.reflect));
    counters_are_read(t, s6, l7, now.reflect, one.reflect, two.reflect);
    let s7 = s6 + l7 + counted(now.reflect, one.reflect);
    let l8 = " consolidation="@;
    begins_with_itself(s7 + l8 + counted(now.consolidation, one.consolidation));
    begins_with_itself(s7 + l8 + counted(now.consolidation, two.consolidation));
    counters_are_read(t, s7, l8, now.consolidation, one.consolidation, two.consolidation);
}

/// Behind each count of the local models stands, in brackets, how much it grew
/// since the earlier reading.
pub proof fn each_model_shows_its_growth(now: Models, earlier: Models, d: Models)
    requires
        now.reranker_calls >= earlier.reranker_calls ==> now.reranker_calls
            == earlier.reranker_calls + d.reranker_calls,
        now.reranker_calls < earlier.reranker_calls ==> d.reranker_calls == now.reranker_calls,
        now.reranker_candidates >= earlier.reranker_candidates ==> now.reranker_candidates
            == earlier.reranker_candidates + d.reranker_candidates,
        now.reranker_candidates < earlier.reranker_candidates ==> d.reranker_candidates
            == now.reranker_candidates,
        now.retain_units >= earlier.retain_units ==> now.retain_units == earlier.retain_units
            + d.retain_units,
        now.retain_units < earlier.retain_units ==> d.retain_units == now.retain_units,
        now.query_embeds >= earlier.query_embeds ==> now.query_embeds == earlier.query_embeds
            + d.query_embeds,
        now.query_embeds < earlier.query_embeds ==> d.query_embeds == now.query_embeds,
        now.consolidation_calls >= earlier.consolidation_calls ==> now.consolidation_calls
            == earlier.consolidation_calls + d.consolidation_calls,
        now.consolidation_calls < earlier.consolidation_calls ==> d.consolidation_calls
            == now.consolidation_calls,
    ensures
        has_text(
            models_text(now, earlier),
            "Reranker: calls="@ + decimal(now.reranker_calls as nat) + " (+"@ + decimal(
                d.reranker_calls as nat,
            ) + "/scan)"@,
        ),
        has_text(
            models_text(now, earlier),
            " candidates="@ + decimal(now.reranker_candidates as nat) + " (+"@ + decimal(
                d.reranker_candidates as nat,
            ) + "/scan)"@,
        ),
        has_text(
            models_text(now, earlier),
            " latency="@ + decimal(now.reranker_latency as nat) + " ms\nEmbedder: retain-units="@,
        ),
        has_text(
            models_text(now, earlier),
            " ms\nEmbedder: retain-units="@ + decimal(now.retain_units as nat) + " (+"@ + decimal(
                d.retain_units as nat,
            ) + "/scan)"@,
        ),
        has_text(
            models_text(now, earlier),
            " query-embeds="@ + decimal(now.query_embeds as nat) + " (+"@ + decimal(
                d.query_embeds as nat,
            ) + "/scan)"@,
        ),
        has_text(
            models_text(now, earlier),
            " consolidation-calls="@ + decimal(now.consolidation_calls as nat) + " (+"@ + decimal(
                d.consolidation_calls as nat,
            ) + "/scan)"@,
        ),
{
    broadcast use longer_texts_keep;

    let s0 = Seq::<char>::empty();
    let l1 = "Reranker: calls="@;
    assert(s0 + l1 =~= l1);
    counters_are_found(s0, l1, now.reranker_calls, earlier.reranker_calls, d.reranker_calls);
    let s1 = l1 + counted(now.reranker_calls, earlier.reranker_calls);
    let l2 = " candidates="@;
    counters_are_found(
        s1,
        l2,
        now.reranker_candidates,
        earlier.reranker_candidates,
        d.reranker_candidates,
    );
    let s2 = s1 + l2 + counted(now.reranker_candidates, earlier.reranker_candidates);
    let l3 = " latency="@;
    let l4 = " ms\nEmbedder: retain-units="@;
    ends_are_found(s2, l3, decimal(now.reranker_latency as nat), l4);
    let s3 = s2 + l3 + decimal(now.reranker_latency as nat);
    counters_are_found(s3, l4, now.retain_units, earlier.retain_units, d.retain_units);
    let s4 = s3 + l4 + counted(now.retain_units, earlier.retain_units);
    let l5 = " query-embeds="@;
    counters_are_found(s4, l5, now.query_embeds, earlier.query_embeds, d.query_embeds);
    let s5 = s4 + l5 + counted(now.query_embeds, earlier.query_embeds);
    counters_are_found(
        s5,
        " consolidation-calls="@,
        now.consolidation_calls,
        earlier.consolidation_calls,
        d.consolidation_calls,
    );
}

/// Whether a text is digits only.
pub open spec fn digits_only(s: Seq<char>) -> bool {
    each(s, |c: char| is_digit(c))
}

proof fn digits_hold_no(s: Seq<char>, c: char)
    requires
        digits_only(s),
        !is_digit(c),
    ensures
        !s.contains(c),
        forall|i: int| 0 <= i < s.len() ==> is_digit(#[trigger] s[i]),
{
    assert forall|i: int| 0 <= i < s.len() implies is_digit(#[trigger] s[i]) by {
        assert((|c: char| is_digit(c))(s[i]));
    }
    if s.contains(c) {
        let i = choose|i: int| 0 <= i < s.len() && s[i] == c;
        assert(is_digit(s[i]));
    }
}

proof fn parts_of_plain(a: Seq<char>)
    requires
        digits_only(a),
        a.len() > 0,
    ensures
        mantissa(a) == a,
        point(a) == a.len(),
        exponent(a).len() == 0,
        before(a, 'e') == a.len(),
{
    digits_hold_no(a, 'e');
    digits_hold_no(a, '.');
    counts_up_to_the_first(a, 'e', Seq::empty());
    counts_up_to_the_first(a, '.', Seq::empty());
    assert(a.take(a.len() as int) =~= a);
}

proof fn parts_of_pointed(a: Seq<char>, b: Seq<char>)
    requires
        digits_only(a),
        digits_only(b),
        a.len() > 0,
    ensures
        mantissa(a + seq!['.'] + b) == a + b,
        point(a + seq!['.'] + b) == a.len(),
        exponent(a + seq!['.'] + b).len() == 0,
        before(a + seq!['.'] + b, 'e') == (a + seq!['.'] + b).len(),
{
    let s = a + seq!['.'] + b;
    digits_hold_no(a, '.');
    digits_hold_no(a, 'e');
    digits_hold_no(b, 'e');
    assert(!s.contains('e')) by {
        if s.contains('e') {
            let i = choose|i: int| 0 <= i < s.len() && s[i] == 'e';
            if i < a.len() {
                assert(a[i] == 'e');
            } else if i > a.len() {
                assert(b[i - a.len() - 1] == 'e');
            }
        }
    }
    counts_up_to_the_first(s, 'e', Seq::empty());
    counts_up_to_the_first(a, '.', b);
    assert(s.take(s.len() as int) =~= s);
    assert(s.take(a.len() as int) + s.skip(a.len() as int + 1) =~= a + b);
}

proof fn parts_of_scientific(m: Seq<char>, x: Seq<char>)
    requires
        !m.contains('e'),
    ensures
        mantissa(m + seq!['e'] + x) == mantissa(m),
        point(m + seq!['e'] + x) == point(m),
        exponent(m + seq!['e'] + x) == x,
        before(m + seq!['e'] + x, 'e') == m.len(),
{
    let s = m + seq!['e'] + x;
    counts_up_to_the_first(m, 'e', x);
    assert(s.take(m.len() as int) =~= m);
    assert(m.take(m.len() as int) =~= m);
    assert(s.skip(m.len() as int + 1) =~= x);
}

/// The whole part of a number without an exponent is what stands before its
/// point, as far as a `u64` goes; the digits behind the point do not matter.
pub proof fn whole_parts_stand_before_the_point(n: nat, b: Seq<char>)
    requires
        digits_only(b),
    ensures
        n <= u64::MAX ==> whole_part(decimal(n)) == n,
        n > u64::MAX ==> whole_part(decimal(n)) == u64::MAX,
        n <= u64::MAX ==> whole_part(decimal(n) + seq!['.'] + b) == n,
        n > u64::MAX ==> whole_part(decimal(n) + seq!['.'] + b) == u64::MAX,
{
    let a = decimal(n);
    decimals_write_numbers(n);
    parts_of_plain(a);
    parts_of_pointed(a, b);
    digits_hold_no(a, 'e');
    digits_hold_no(b, 'e');
    assert forall|i: int| 0 <= i < (a + b).len() implies is_digit(#[trigger] (a + b)[i]) by {
        if i < a.len() {
            assert(is_digit(a[i]));
        } else {
            assert(is_digit(b[i - a.len()]));
        }
    }
    assert(unsigned(Seq::<char>::empty()) =~= Seq::<char>::empty());
    assert(exponent(a) =~= Seq::<char>::empty());
    assert(exponent(a + seq!['.'] + b) =~= Seq::<char>::empty());
    assert(leading(a, a.len() as int) =~= a);
    assert(leading(a + b, a.len() as int) =~= a);
}

/// An exponent moves the point: to the right over the digits behind it, to the
/// left over those before it, and past the last digit noughts follow.
pub proof fn exponents_move_the_point(a: Seq<char>, b: Seq<char>, k: nat)
    requires
        digits_only(a),
        digits_only(b),
        a.len() > 0,
        k < 1000,
    ensures
        k <= b.len() && digits_value(a + b.take(k as int)) <= u64::MAX ==> whole_part(
            a + seq!['.'] + b + seq!['e'] + decimal(k),
        ) == digits_value(a + b.take(k as int)),
        k <= b.len() && digits_value(a + b.take(k as int)) <= u64::MAX ==> whole_part(
            a + seq!['.'] + b + seq!['e'] + (seq!['+'] + decimal(k)),
        ) == digits_value(a + b.take(k as int)),
        k <= a.len() && digits_value(a.take(a.len() - k)) <= u64::MAX ==> whole_part(
            a + seq!['.'] + b + seq!['e'] + (seq!['-'] + decimal(k)),
        ) == digits_value(a.take(a.len() - k)),
        k > a.len() ==> whole_part(a + seq!['.'] + b + seq!['e'] + (seq!['-'] + decimal(k))) == 0,
        k > b.len() && digits_value(a + b) * vstd::arithmetic::power::pow(
            10,
            (k - b.len()) as nat,
        ) <= u64::MAX ==> whole_part(a + seq!['.'] + b + seq!['e'] + decimal(k)) == digits_value(
            a + b,
        ) * vstd::arithmetic::power::pow(10, (k - b.len()) as nat),
{
    let m = a + seq!['.'] + b;
    let x = decimal(k);
    let up = seq!['+'] + x;
    let down = seq!['-'] + x;
    parts_of_pointed(a, b);
    digits_hold_no(a, 'e');
    digits_hold_no(b, 'e');
    assert(!m.contains('e')) by {
        if m.contains('e') {
            let i = choose|i: int| 0 <= i < m.len() && m[i] == 'e';
            if i < a.len() {
                assert(a[i] == 'e');
            } else if i > a.len() {
                assert(b[i - a.len() - 1] == 'e');
            }
        }
    }
    parts_of_scientific(m, x);
    parts_of_scientific(m, up);
    parts_of_scientific(m, down);
    decimals_write_numbers(k);
    digits_hold_no(x, 'e');
    assert(is_digit(x[0]));
    assert(unsigned(x) == x);
    assert(up.drop_first() =~= x);
    assert(down.drop_first() =~= x);
    assert(up[0] == '+' && down[0] == '-');
    assert(unsigned(up) == x);
    assert(unsigned(down) == x);
    decimals_are_short(k);
    let ab = a + b;
    assert forall|i: int| 0 <= i < ab.len() implies is_digit(#[trigger] ab[i]) by {
        if i < a.len() {
            assert(is_digit(a[i]));
        } else {
            assert(is_digit(b[i - a.len()]));
        }
    }
    if k <= b.len() {
        assert(leading(ab, (a.len() + k) as int) =~= a + b.take(k as int));
    } else {
        let n = (k - b.len()) as nat;
        noughts_follow(ab, n);
    }
    if k <= a.len() {
        assert(leading(ab, a.len() - k) =~= a.take(a.len() - k));
    } else {
        assert(leading(ab, a.len() - k) =~= Seq::<char>::empty());
    }
}

proof fn decimals_are_short(k: nat)
    requires
        k < 1000,
    ensures
        decimal(k).len() <= 3,
{
    reveal_with_fuel(decimal, 4);
}

proof fn noughts_follow(s: Seq<char>, n: nat)
    ensures
        digits_value(leading(s, (s.len() + n) as int)) as int == digits_value(s)
            * vstd::arithmetic::power::pow(10, n),
    decreases n,
{
    let l = leading(s, (s.len() + n) as int);
    if n == 0 {
        assert(l =~= s);
        vstd::arithmetic::power::lemma_pow0(10);
    } else {
        let m = (n - 1) as nat;
        noughts_follow(s, m);
        assert(l.drop_last() =~= leading(s, (s.len() + m) as int));
        assert(l.last() == '0');
        let p = vstd::arithmetic::power::pow(10, m);
        let v = digits_value(s) as int;
        assert(vstd::arithmetic::power::pow(10, n) == 10 * p) by {
            reveal(vstd::arithmetic::power::pow);
        }
        assert((v * p) * 10 == v * (10 * p)) by (nonlinear_arith);
    }
}

/// A metric is summed line by line, as far as a `u64` goes.
pub proof fn totals_are_sums(a: Seq<Seq<char>>, b: Seq<Seq<char>>, name: Seq<char>, mark: Seq<char>)
    ensures
        total(a, name, mark) + total(b, name, mark) <= u64::MAX ==> total(a + b, name, mark)
            == total(a, name, mark) + total(b, name, mark),
        total(a, name, mark) + total(b, name, mark) > u64::MAX ==> total(a + b, name, mark)
            == u64::MAX,
    decreases b.len(),
{
    totals_fit(a, name, mark);
    if b.len() == 0 {
        assert(a + b =~= a);
    } else {
        totals_are_sums(a, b.drop_last(), name, mark);
        assert((a + b).drop_last() =~= a + b.drop_last());
        assert((a + b).last() == b.last());
        totals_fit(b.drop_last(), name, mark);
    }
}

proof fn totals_fit(a: Seq<Seq<char>>, name: Seq<char>, mark: Seq<char>)
    ensures
        total(a, name, mark) <= u64::MAX,
{
}

/// A line that names a metric, with labels that hold the mark and then a number,
/// adds its number; one whose labels do not hold the mark adds nothing; and a line
/// without labels adds its number to a metric without a mark.
pub proof fn lines_add_their_number(name: Seq<char>, labels: Seq<char>, mark: Seq<char>, n: nat)
    requires
        n <= u64::MAX,
        mark.len() > 0,
    ensures
        has_text(labels, mark) ==> total(
            seq![name + seq!['{'] + labels + seq!['}', ' '] + decimal(n)],
            name,
            mark,
        ) == n,
        total(
            seq![name + seq!['{'] + labels + seq!['}', ' '] + decimal(n)],
            name,
            Seq::empty(),
        ) == n,
        total(seq![name + seq![' '] + decimal(n)], name, Seq::empty()) == n,
        !has_text(seq!['{'] + labels + seq!['}', ' '] + decimal(n), mark) ==> total(
            seq![name + seq!['{'] + labels + seq!['}', ' '] + decimal(n)],
            name,
            mark,
        ) == 0,
        total(Seq::empty(), name, mark) == 0,
{
    let d = decimal(n);
    decimals_write_numbers(n);
    let line = name + seq!['{'] + labels + seq!['}', ' '] + d;
    let rest = seq!['{'] + labels + seq!['}', ' '] + d;
    assert(line.subrange(0, name.len() as int) =~= name);
    assert(line.skip(name.len() as int) =~= rest);
    assert(line[name.len() as int] == '{');
    assert(sample_rest(line, name) == Some(rest));
    number_behind_labels(seq!['{'] + labels, d);
    assert((seq!['{'] + labels) + seq!['}'] + (seq![' '] + d) =~= rest);
    whole_parts_stand_before_the_point(n, Seq::empty());
    let bare = name + seq![' '] + d;
    assert(bare.subrange(0, name.len() as int) =~= name);
    assert(bare.skip(name.len() as int) =~= seq![' '] + d);
    assert(bare[name.len() as int] == ' ');
    number_without_labels(d);
    if has_text(labels, mark) {
        longer_texts_hold_as_much(seq!['{'], labels, seq!['}', ' '] + d, mark);
        assert(seq!['{'] + labels + (seq!['}', ' '] + d) =~= rest);
    }
    end_is_found(rest, Seq::empty());
    assert(rest + Seq::<char>::empty() =~= rest);
    end_is_found(seq![' '] + d, Seq::empty());
    assert((seq![' '] + d) + Seq::<char>::empty() =~= seq![' '] + d);
    one_line(line, name, mark);
    one_line(line, name, Seq::empty());
    one_line(bare, name, Seq::empty());
}

proof fn one_line(line: Seq<char>, name: Seq<char>, mark: Seq<char>)
    ensures
        total(seq![line], name, mark) == capped(sample(line, name, mark)),
{
    assert(seq![line].drop_last() =~= Seq::<Seq<char>>::empty());
    reveal_with_fuel(total, 2);
}

proof fn number_without_labels(d: Seq<char>)
    requires
        digits_only(d),
        d.len() > 0,
    ensures
        number_text(seq![' '] + d) == d,
{
    digits_hold_no(d, '}');
    digits_hold_no(d, ' ');
    let t = seq![' '] + d;
    assert(!t.contains('}')) by {
        if t.contains('}') {
            let i = choose|i: int| 0 <= i < t.len() && t[i] == '}';
            assert(d[i - 1] == '}');
        }
    }
    keeps_what_follows_the_last(Seq::empty(), '}', t);
    digits_stand_alone(d);
}

proof fn number_behind_labels(a: Seq<char>, d: Seq<char>)
    requires
        digits_only(d),
        d.len() > 0,
    ensures
        number_text(a + seq!['}'] + (seq![' '] + d)) == d,
{
    digits_hold_no(d, '}');
    digits_hold_no(d, ' ');
    let t = seq![' '] + d;
    assert(!t.contains('}')) by {
        if t.contains('}') {
            let i = choose|i: int| 0 <= i < t.len() && t[i] == '}';
            assert(d[i - 1] == '}');
        }
    }
    keeps_what_follows_the_last(a, '}', t);
    digits_stand_alone(d);
}

proof fn digits_stand_alone(d: Seq<char>)
    requires
        digits_only(d),
        d.len() > 0,
    ensures
        crate::text::trimmed(seq![' '] + d) == d,
        d.take(before(d, ' ') as int) == d,
{
    digits_hold_no(d, ' ');
    assert(is_digit(d[0]) && is_digit(d[d.len() - 1]));
    assert(each(seq![' '], |c: char| is_space(c))) by {
        assert(is_space(' '));
    }
    assert(each(Seq::<char>::empty(), |c: char| is_space(c)));
    trims_the_space_around(seq![' '], d, Seq::empty());
    assert(seq![' '] + d + Seq::<char>::empty() =~= seq![' '] + d);
    counts_up_to_the_first(d, ' ', Seq::empty());
    assert(d.take(d.len() as int) =~= d);
}

/// Each number that is shown is that of its own metric, whatever the labels, as
/// far as the service names what it counts.
pub proof fn readings_come_from_their_metrics(labels: Seq<char>, n: u64)
    ensures
        metrics_in(
            seq!["hindsight_llm_calls_total"@ + seq!['{'] + labels + seq!['}', ' '] + decimal(n as nat)],
        ).llm_calls == n,
        metrics_in(
            seq![
                "hindsight_llm_tokens_input_tokens_total"@ + seq!['{'] + labels + seq!['}', ' ']
                    + decimal(n as nat),
            ],
        ).tokens_in == n,
        metrics_in(
            seq![
                "hindsight_llm_tokens_output_tokens_total"@ + seq!['{'] + labels + seq!['}', ' ']
                    + decimal(n as nat),
            ],
        ).tokens_out == n,
        has_text(labels, "scope=\"retain"@) ==> metrics_in(
            seq!["hindsight_llm_calls_total"@ + seq!['{'] + labels + seq!['}', ' '] + decimal(n as nat)],
        ).for_retain == n,
        has_text(labels, "scope=\"consolidation"@) ==> metrics_in(
            seq!["hindsight_llm_calls_total"@ + seq!['{'] + labels + seq!['}', ' '] + decimal(n as nat)],
        ).for_consolidation == n,
        has_text(labels, "scope=\"verification"@) ==> metrics_in(
            seq!["hindsight_llm_calls_total"@ + seq!['{'] + labels + seq!['}', ' '] + decimal(n as nat)],
        ).for_verification == n,
        has_text(labels, "operation=\"retain\""@) ==> metrics_in(
            seq![
                "hindsight_operation_operations_total"@ + seq!['{'] + labels + seq!['}', ' ']
                    + decimal(n as nat),
            ],
        ).retain == n,
        has_text(labels, "operation=\"recall\""@) ==> metrics_in(
            seq![
                "hindsight_operation_operations_total"@ + seq!['{'] + labels + seq!['}', ' ']
                    + decimal(n as nat),
            ],
        ).recall == n,
        has_text(labels, "operation=\"reflect\""@) ==> metrics_in(
            seq![
                "hindsight_operation_operations_total"@ + seq!['{'] + labels + seq!['}', ' ']
                    + decimal(n as nat),
            ],
        ).reflect == n,
        has_text(labels, "operation=\"consolidation\""@) ==> metrics_in(
            seq![
                "hindsight_operation_operations_total"@ + seq!['{'] + labels + seq!['}', ' ']
                    + decimal(n as nat),
            ],
        ).consolidation == n,
        metrics_in(
            seq!["hindsight_process_memory_bytes"@ + seq!['{'] + labels + seq!['}', ' '] + decimal(n as nat)],
        ).memory_bytes == n,
        metrics_in(
            seq!["hindsight_process_cpu_seconds"@ + seq!['{'] + labels + seq!['}', ' '] + decimal(n as nat)],
        ).cpu_seconds == n,
        metrics_in(
            seq!["hindsight_process_open_fds"@ + seq!['{'] + labels + seq!['}', ' '] + decimal(n as nat)],
        ).open_fds == n,
        metrics_in(
            seq!["hindsight_db_pool_size"@ + seq!['{'] + labels + seq!['}', ' '] + decimal(n as nat)],
        ).db_pool == n,
{
    reveal_strlit("");
    assert(""@ =~= Seq::<char>::empty());
    reveal_strlit("scope=\"retain");
    reveal_strlit("scope=\"consolidation");
    reveal_strlit("scope=\"verification");
    reveal_strlit("operation=\"retain\"");
    reveal_strlit("operation=\"recall\"");
    reveal_strlit("operation=\"reflect\"");
    reveal_strlit("operation=\"consolidation\"");
    let m = n as nat;
    let calls = "hindsight_llm_calls_total"@;
    let operations = "hindsight_operation_operations_total"@;
    lines_add_their_number(calls, labels, "scope=\"retain"@, m);
    lines_add_their_number(calls, labels, "scope=\"consolidation"@, m);
    lines_add_their_number(calls, labels, "scope=\"verification"@, m);
    lines_add_their_number(operations, labels, "operation=\"retain\""@, m);
    lines_add_their_number(operations, labels, "operation=\"recall\""@, m);
    lines_add_their_number(operations, labels, "operation=\"reflect\""@, m);
    lines_add_their_number(operations, labels, "operation=\"consolidation\""@, m);
    let any = "scope=\"retain"@;
    lines_add_their_number("hindsight_llm_tokens_input_tokens_total"@, labels, any, m);
    lines_add_their_number("hindsight_llm_tokens_output_tokens_total"@, labels, any, m);
    lines_add_their_number("hindsight_process_memory_bytes"@, labels, any, m);
    lines_add_their_number("hindsight_process_cpu_seconds"@, labels, any, m);
    lines_add_their_number("hindsight_process_open_fds"@, labels, any, m);
    lines_add_their_number("hindsight_db_pool_size"@, labels, any, m);
}

/// The metrics are read from all the lines of a reply, if the command succeeded,
/// and otherwise not at all.
pub proof fn only_replies_are_read(stdout: String, stderr: String, why: String)
    ensures
        metrics_read(Ran::Done { success: true, stdout, stderr }) == Some(
            metrics_in(lines_of(stdout@)),
        ),
        metrics_read(Ran::Done { success: false, stdout, stderr }) is None,
        metrics_read(Ran::Failed(why)) is None,
{
}

/// The backlog is there exactly if a line names it, and its parts are read from the
/// lines of theirs.
pub proof fn the_backlog_is_read(
    a: Seq<Seq<char>>,
    labels: Seq<char>,
    n: u64,
    b: Seq<Seq<char>>,
)
    ensures
        metrics_in(
            a + seq![
                "hindsight_consolidation_backlog"@ + seq!['{'] + labels + seq!['}', ' '] + decimal(
                    n as nat,
                ),
            ] + b,
        ).backlog is Some,
        metrics_in(Seq::empty()).backlog is None,
        has_text(labels, "=\"pending\""@) ==> metrics_in(
            seq![
                "hindsight_consolidation_backlog"@ + seq!['{'] + labels + seq!['}', ' '] + decimal(
                    n as nat,
                ),
            ],
        ).backlog->0.pending == n,
        has_text(labels, "=\"processing\""@) ==> metrics_in(
            seq![
                "hindsight_consolidation_backlog"@ + seq!['{'] + labels + seq!['}', ' '] + decimal(
                    n as nat,
                ),
            ],
        ).backlog->0.processing == n,
        has_text(labels, "=\"failed\""@) ==> metrics_in(
            seq![
                "hindsight_consolidation_backlog"@ + seq!['{'] + labels + seq!['}', ' '] + decimal(
                    n as nat,
                ),
            ],
        ).backlog->0.failed == n,
{
    let name = "hindsight_consolidation_backlog"@;
    let line = name + seq!['{'] + labels + seq!['}', ' '] + decimal(n as nat);
    assert(line.subrange(0, name.len() as int) =~= name);
    assert(line[name.len() as int] == '{');
    assert(sample_rest(line, name) is Some);
    let all = a + seq![line] + b;
    assert(all[a.len() as int] == line);
    assert(present(all, name));
    assert(seq![line][0] == line);
    assert(present(seq![line], name));
    reveal_strlit("=\"pending\"");
    reveal_strlit("=\"processing\"");
    reveal_strlit("=\"failed\"");
    lines_add_their_number(name, labels, "=\"pending\""@, n as nat);
    lines_add_their_number(name, labels, "=\"processing\""@, n as nat);
    lines_add_their_number(name, labels, "=\"failed\""@, n as nat);
}

} // verus!
