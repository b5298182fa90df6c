//! Laws of the memory bank.

use vstd::prelude::*;
use crate::command::Ran;
use crate::hindsight::{
    bank_down, bank_up, correction_marks, dry_run, memories, memory_text, mentions, number_field, object_with,
    patch_request, patch_requests, query_path, reply, stale, stale_marks, stale_memories, sweep_of, swept, swept_ids,
    text_field, version_in, Query, API_URL, BANK_PATH,
};
use crate::json::{field_of, json_tree, Tree};
use crate::text::has_text;

verus! {

broadcast use vstd::string::group_string_axioms;

/// What a command wrote counts exactly if the command succeeded, and then the
/// whole of it.
pub proof fn only_success_has_output(stdout: String, stderr: String, why: String)
    ensures
        (Ran::Done { success: true, stdout, stderr }).good() == Some(stdout@),
        (Ran::Done { success: false, stdout, stderr }).good() is None,
        Ran::Failed(why).good() is None,
{
}

/// Whether no field has a name.
pub open spec fn lacks(fields: Seq<(Seq<char>, Tree)>, key: Seq<char>) -> bool {
    forall|i: int| 0 <= i < fields.len() ==> (#[trigger] fields[i]).0 != key
}

/// A field is found by its name, whatever other fields stand around it; and a name
/// that no field has finds none.
pub proof fn fields_are_found_by_name(
    b: Seq<(Seq<char>, Tree)>,
    key: Seq<char>,
    v: Tree,
    a: Seq<(Seq<char>, Tree)>,
)
    requires
        lacks(b, key),
    ensures
        Tree::Object(b + seq![(key, v)] + a).field(key) == Some(v),
        Tree::Object(b).field(key) is None,
    decreases b.len(),
{
    let all = b + seq![(key, v)] + a;
    if b.len() > 0 {
        assert(b[0].0 != key);
        assert(all.first() == b[0]);
        assert(all.drop_first() =~= b.drop_first() + seq![(key, v)] + a);
        assert forall|i: int| 0 <= i < b.drop_first().len() implies (
        #[trigger] b.drop_first()[i]).0 != key by {
            assert(b[i + 1].0 != key);
        }
        fields_are_found_by_name(b.drop_first(), key, v, a);
        assert(field_of(all, key) == field_of(all.drop_first(), key));
        assert(field_of(b, key) == field_of(b.drop_first(), key));
    } else {
        assert(all.first() == (key, v));
    }
}

/// Text and numbers are read from their fields as they stand there.
pub proof fn fields_are_read_as_they_stand(
    b: Seq<(Seq<char>, Tree)>,
    key: Seq<char>,
    s: Seq<char>,
    n: u64,
    a: Seq<(Seq<char>, Tree)>,
)
    requires
        lacks(b, key),
    ensures
        text_field(Tree::Object(b + seq![(key, Tree::Text(s))] + a), key) == s,
        text_field(Tree::Object(b + seq![(key, Tree::Number(Some(n)))] + a), key).len() == 0,
        text_field(Tree::Object(b), key).len() == 0,
        number_field(Tree::Object(b + seq![(key, Tree::Number(Some(n)))] + a), key) == n,
        number_field(Tree::Object(b + seq![(key, Tree::Text(s))] + a), key) == 0,
        number_field(Tree::Object(b), key) == 0,
{
    fields_are_found_by_name(b, key, Tree::Text(s), a);
    fields_are_found_by_name(b, key, Tree::Number(Some(n)), a);
}

/// A memory that carries any of these phrases, wherever it stands, is not stale.
pub proof fn corrected_memories_are_spared(text: Seq<char>)
    requires
        has_text(text, "415"@) || has_text(text, "41/45"@) || has_text(text, "merged"@) || has_text(
            text,
            "verified"@,
        ) || has_text(text, "proven"@) || has_text(text, "not NULL"@) || has_text(
            text,
            "no failing"@,
        ) || has_text(text, "SUPERSEDED"@) || has_text(text, "stale"@) || has_text(text, "false"@)
            || has_text(text, "correct"@) || has_text(text, "not used"@),
    ensures
        !stale(text),
{
    let m = correction_marks();
    assert(m[0] == "415"@ && m[1] == "41/45"@ && m[2] == "merged"@ && m[3] == "verified"@ && m[4]
        == "proven"@ && m[5] == "not NULL"@ && m[6] == "no failing"@ && m[7] == "SUPERSEDED"@
        && m[8] == "stale"@ && m[9] == "false"@ && m[10] == "correct"@ && m[11] == "not used"@);
}

/// A memory whose text carries any of these phrases is neither counted nor swept,
/// whatever it is called and whatever it is about.
pub proof fn corrected_memories_are_neither_counted_nor_swept(m: Tree)
    requires
        has_text(memory_text(m), "415"@) || has_text(memory_text(m), "41/45"@) || has_text(
            memory_text(m),
            "merged"@,
        ) || has_text(memory_text(m), "verified"@) || has_text(memory_text(m), "proven"@)
            || has_text(memory_text(m), "not NULL"@) || has_text(memory_text(m), "no failing"@)
            || has_text(memory_text(m), "SUPERSEDED"@) || has_text(memory_text(m), "stale"@)
            || has_text(memory_text(m), "false"@) || has_text(memory_text(m), "correct"@)
            || has_text(memory_text(m), "not used"@),
    ensures
        stale_memories(seq![m]).len() == 0,
        swept_ids(seq![m]).len() == 0,
        !swept(m),
{
    corrected_memories_are_spared(memory_text(m));
    dry_runs_count_one_by_one(seq![m], seq![m], m);
    sweeps_judge_one_by_one(seq![m], seq![m], m);
}

/// Whether a text carries a phrase that corrects it.
pub open spec fn carries_correction(text: Seq<char>) -> bool {
    ||| has_text(text, "415"@) || has_text(text, "41/45"@) || has_text(text, "merged"@)
    ||| has_text(text, "verified"@) || has_text(text, "proven"@) || has_text(text, "not NULL"@)
    ||| has_text(text, "no failing"@) || has_text(text, "SUPERSEDED"@) || has_text(text, "stale"@)
    ||| has_text(text, "false"@) || has_text(text, "correct"@) || has_text(text, "not used"@)
}

/// A memory without a correction is stale exactly if one of these phrases stands
/// in it.
pub proof fn eleven_phrases_are_stale(text: Seq<char>)
    requires
        !carries_correction(text),
    ensures
        has_text(text, "406 tests"@) ==> stale(text),
        has_text(text, "410 tests"@) ==> stale(text),
        has_text(text, "still NULL"@) ==> stale(text),
        has_text(text, "not yet utilized"@) ==> stale(text),
        has_text(text, "remain unused"@) ==> stale(text),
        has_text(text, "one commit ahead"@) ==> stale(text),
        has_text(text, "on-demand"@) ==> stale(text),
        has_text(text, "no cron"@) ==> stale(text),
        has_text(text, "human-dependent"@) ==> stale(text),
        has_text(text, "failing test"@) ==> stale(text),
        has_text(text, "red pre-push"@) ==> stale(text),
        stale(text) ==> has_text(text, "406 tests"@) || has_text(text, "410 tests"@) || has_text(
            text,
            "still NULL"@,
        ) || has_text(text, "not yet utilized"@) || has_text(text, "remain unused"@) || has_text(
            text,
            "one commit ahead"@,
        ) || has_text(text, "on-demand"@) || has_text(text, "no cron"@) || has_text(
            text,
            "human-dependent"@,
        ) || has_text(text, "failing test"@) || has_text(text, "red pre-push"@),
{
    let c = correction_marks();
    let m = stale_marks();
    assert(!mentions(text, c)) by {
        if mentions(text, c) {
            let i = choose|i: int| 0 <= i < c.len() && has_text(text, #[trigger] c[i]);
            assert(c.len() == 12);
        }
    }
    assert(m[0] == "406 tests"@ && m[1] == "410 tests"@ && m[2] == "still NULL"@ && m[3]
        == "not yet utilized"@ && m[4] == "remain unused"@ && m[5] == "one commit ahead"@ && m[6]
        == "on-demand"@ && m[7] == "no cron"@ && m[8] == "human-dependent"@ && m[9]
        == "failing test"@ && m[10] == "red pre-push"@);
    assert(m.len() == 11);
}

/// What a memory says is its `text`; or its `content`, if it has no `text`.
pub proof fn memories_say_their_text(
    b: Seq<(Seq<char>, Tree)>,
    s: Seq<char>,
    a: Seq<(Seq<char>, Tree)>,
)
    requires
        lacks(b, "text"@),
        lacks(b, "content"@),
        lacks(a, "text"@),
    ensures
        memory_text(Tree::Object(b + seq![("text"@, Tree::Text(s))] + a)) == s,
        memory_text(Tree::Object(b + seq![("content"@, Tree::Text(s))] + a)) == s,
        memory_text(Tree::Object(b)).len() == 0,
{
    reveal_strlit("text");
    reveal_strlit("content");
    fields_are_found_by_name(b, "text"@, Tree::Text(s), a);
    fields_are_found_by_name(b, "content"@, Tree::Text(s), a);
    let c = b + seq![("content"@, Tree::Text(s))] + a;
    assert("text"@.len() != "content"@.len());
    assert(lacks(c, "text"@)) by {
        assert forall|i: int| 0 <= i < c.len() implies (#[trigger] c[i]).0 != "text"@ by {
            if i < b.len() {
                assert(c[i] == b[i]);
            } else if i > b.len() {
                assert(c[i] == a[i - b.len() - 1]);
            }
        }
    }
    fields_are_found_by_name(c, "text"@, Tree::Null, a);
}

/// The memories of a reply are all the items of its list.
pub proof fn memories_are_all_the_items(
    b: Seq<(Seq<char>, Tree)>,
    items: Seq<Tree>,
    a: Seq<(Seq<char>, Tree)>,
)
    requires
        lacks(b, "items"@),
    ensures
        memories(Tree::Object(b + seq![("items"@, Tree::Array(items))] + a)) == items,
        memories(Tree::Object(b)).len() == 0,
{
    fields_are_found_by_name(b, "items"@, Tree::Array(items), a);
}

/// The dry run counts each memory by itself, once if it is stale.
pub proof fn dry_runs_count_one_by_one(a: Seq<Tree>, b: Seq<Tree>, m: Tree)
    ensures
        stale_memories(a + b).len() == stale_memories(a).len() + stale_memories(b).len(),
        stale_memories(seq![m]).len() == (if stale(memory_text(m)) {
            1nat
        } else {
            0nat
        }),
{
    let p = |m: Tree| stale(memory_text(m));
    Seq::filter_distributes_over_add(a, b, p);
    crate::seqs::lemma_filter_one(m, p);
}

/// The dry run of a reply counts the stale ones of all its memories; without a
/// reply there are none.
pub proof fn dry_runs_count_the_stale(
    b: Seq<(Seq<char>, Tree)>,
    items: Seq<Tree>,
    a: Seq<(Seq<char>, Tree)>,
)
    requires
        lacks(b, "items"@),
    ensures
        dry_run(Some(Tree::Object(b + seq![("items"@, Tree::Array(items))] + a))) == items.filter(
            |m: Tree| stale(memory_text(m)),
        ).len(),
        dry_run(None) == 0,
{
    memories_are_all_the_items(b, items, a);
}

/// The sweep judges each memory by itself: it takes the id of one that can be
/// named, is about the world or an experience, and is stale; and no other.
pub proof fn sweeps_judge_one_by_one(a: Seq<Tree>, b: Seq<Tree>, m: Tree)
    ensures
        swept_ids(a + b) == swept_ids(a) + swept_ids(b),
        text_field(m, "id"@).len() > 0 && (text_field(m, "fact_type"@) == "world"@ || text_field(
            m,
            "fact_type"@,
        ) == "experience"@) && stale(memory_text(m)) ==> swept_ids(seq![m]) == seq![
            text_field(m, "id"@),
        ],
        text_field(m, "id"@).len() == 0 ==> swept_ids(seq![m]).len() == 0,
        text_field(m, "fact_type"@) != "world"@ && text_field(m, "fact_type"@) != "experience"@
            ==> swept_ids(seq![m]).len() == 0,
        !stale(memory_text(m)) ==> swept_ids(seq![m]).len() == 0,
{
    let p = |m: Tree| swept(m);
    let id = |m: Tree| text_field(m, "id"@);
    Seq::filter_distributes_over_add(a, b, p);
    assert((a.filter(p) + b.filter(p)).map_values(id) =~= a.filter(p).map_values(id) + b.filter(
        p,
    ).map_values(id));
    crate::seqs::lemma_filter_one(m, p);
    if swept(m) {
        assert(seq![m].map_values(id) =~= seq![id(m)]);
    } else {
        assert(Seq::<Tree>::empty().map_values(id) =~= Seq::<Seq<char>>::empty());
    }
}

/// The sweep of a reply is that of all its memories; without a reply it takes
/// nothing.
pub proof fn sweeps_take_from_all_memories(
    b: Seq<(Seq<char>, Tree)>,
    items: Seq<Tree>,
    a: Seq<(Seq<char>, Tree)>,
)
    requires
        lacks(b, "items"@),
    ensures
        sweep_of(Some(Tree::Object(b + seq![("items"@, Tree::Array(items))] + a))) == swept_ids(
            items,
        ),
        sweep_of(None).len() == 0,
{
    memories_are_all_the_items(b, items, a);
}

/// A memory is invalidated by one PATCH of its own address, which fails on an
/// HTTP error; and different memories by different requests.
pub proof fn each_memory_has_its_own_request(id: Seq<char>, other: Seq<char>)
    ensures
        patch_request(id).contains(
            "http://127.0.0.1:8888/v1/default/banks/hermes/memories/"@ + id,
        ),
        patch_request(id).contains("-f"@),
        patch_request(id).contains("PATCH"@),
        patch_request(id).contains(
            "{\"reason\":\"stale-wrong: superseded by live-verified fact\",\"state\":\"invalidated\"}"@,
        ),
        patch_request(id) == patch_request(other) ==> id == other,
{
    let r = patch_request(id);
    reveal_strlit("http://127.0.0.1:8888/v1/default/banks/hermes/memories/");
    reveal_strlit("http://127.0.0.1:8888");
    reveal_strlit("/v1/default/banks/hermes");
    reveal_strlit("/memories/");
    let front = "http://127.0.0.1:8888"@ + "/v1/default/banks/hermes"@ + "/memories/"@;
    assert(front =~= "http://127.0.0.1:8888/v1/default/banks/hermes/memories/"@);
    assert(r[6] == front + id);
    assert(r[0] == "-f"@);
    assert(r[5] == "PATCH"@);
    let q = patch_request(other);
    if r == q {
        assert(q[6] == front + other);
        assert(id =~= (front + id).skip(front.len() as int));
        assert(other =~= (front + other).skip(front.len() as int));
    }
    reveal_strlit("{\"");
    reveal_strlit("reason");
    reveal_strlit("\":\"");
    reveal_strlit("stale-wrong: superseded by live-verified fact");
    reveal_strlit("\",\"");
    reveal_strlit("state");
    reveal_strlit("invalidated");
    reveal_strlit("\"}");
    reveal_strlit(
        "{\"reason\":\"stale-wrong: superseded by live-verified fact\",\"state\":\"invalidated\"}",
    );
    assert(object_with(
        "reason"@,
        "stale-wrong: superseded by live-verified fact"@,
        "state"@,
        "invalidated"@,
    )
        =~= "{\"reason\":\"stale-wrong: superseded by live-verified fact\",\"state\":\"invalidated\"}"@);
    assert(r[10] == object_with(
        "reason"@,
        "stale-wrong: superseded by live-verified fact"@,
        "state"@,
        "invalidated"@,
    ));
}

/// There is one request for each id, in their order.
pub proof fn one_request_for_each(ids: Seq<Seq<char>>, i: int)
    requires
        0 <= i < ids.len(),
    ensures
        patch_requests(ids).len() == ids.len(),
        patch_requests(ids)[i] == patch_request(ids[i]),
{
}

/// The snapshot shows the numbers that the service replied, however large.
pub proof fn snapshots_show_what_was_replied(
    b: Seq<(Seq<char>, Tree)>,
    n: u64,
    a: Seq<(Seq<char>, Tree)>,
    o: Option<Tree>,
    p: Option<Tree>,
    q: Option<Tree>,
    r: Option<Tree>,
)
    requires
        lacks(b, "total"@),
        lacks(b, "total_links"@),
        lacks(b, "total_documents"@),
        lacks(b, "nodes_by_fact_type"@),
        lacks(b, "world"@),
        lacks(b, "experience"@),
        lacks(b, "observation"@),
    ensures
        bank_up(
            o,
            Some(Tree::Object(b + seq![("total"@, Tree::Number(Some(n)))] + a)),
            p,
            q,
            r,
        ).total_memories == n,
        bank_up(
            o,
            p,
            Some(Tree::Object(b + seq![("total_links"@, Tree::Number(Some(n)))] + a)),
            q,
            r,
        ).total_links == n,
        bank_up(
            o,
            p,
            Some(Tree::Object(b + seq![("total_documents"@, Tree::Number(Some(n)))] + a)),
            q,
            r,
        ).total_documents == n,
        bank_up(
            o,
            p,
            Some(with_facts(b, Tree::Object(b + seq![("world"@, Tree::Number(Some(n)))] + a), a)),
            q,
            r,
        ).fact_world == n,
        bank_up(
            o,
            p,
            Some(
                with_facts(b, Tree::Object(b + seq![("experience"@, Tree::Number(Some(n)))] + a), a),
            ),
            q,
            r,
        ).fact_experience == n,
        bank_up(
            o,
            p,
            Some(
                with_facts(
                    b,
                    Tree::Object(b + seq![("observation"@, Tree::Number(Some(n)))] + a),
                    a,
                ),
            ),
            q,
            r,
        ).fact_observation == n,
        bank_up(o, p, q, r, None).stale_candidates == 0,
        bank_up(o, None, None, None, p).total_memories == 0,
        bank_up(o, p, None, q, r).total_links == 0,
        bank_up(o, p, q, r, None).running,
{
    let v = Tree::Number(Some(n));
    fields_are_found_by_name(b, "total"@, v, a);
    fields_are_found_by_name(b, "total_links"@, v, a);
    fields_are_found_by_name(b, "total_documents"@, v, a);
    fields_are_found_by_name(b, "world"@, v, a);
    fields_are_found_by_name(b, "experience"@, v, a);
    fields_are_found_by_name(b, "observation"@, v, a);
    let k = "nodes_by_fact_type"@;
    fields_are_found_by_name(b, k, Tree::Object(b + seq![("world"@, v)] + a), a);
    fields_are_found_by_name(b, k, Tree::Object(b + seq![("experience"@, v)] + a), a);
    fields_are_found_by_name(b, k, Tree::Object(b + seq![("observation"@, v)] + a), a);
}

/// A reply that holds the numbers by type.
pub open spec fn with_facts(
    b: Seq<(Seq<char>, Tree)>,
    facts: Tree,
    a: Seq<(Seq<char>, Tree)>,
) -> Tree {
    Tree::Object(b + seq![("nodes_by_fact_type"@, facts)] + a)
}

/// The snapshot shows the version, the mission and the dry run's count as they
/// were replied.
pub proof fn snapshots_show_the_texts_replied(
    b: Seq<(Seq<char>, Tree)>,
    s: Seq<char>,
    a: Seq<(Seq<char>, Tree)>,
    items: Seq<Tree>,
    p: Option<Tree>,
    q: Option<Tree>,
    r: Option<Tree>,
)
    requires
        lacks(b, "api_version"@),
        lacks(b, "config"@),
        lacks(b, "observations_mission"@),
        lacks(b, "items"@),
    ensures
        version_in(Some(Tree::Object(b + seq![("api_version"@, Tree::Text(s))] + a))) == Some(s),
        version_in(Some(Tree::Object(b))) is None,
        bank_up(
            Some(Tree::Object(b + seq![("api_version"@, Tree::Text(s))] + a)),
            p,
            q,
            r,
            p,
        ).version == s,
        bank_up(None, p, q, r, p).version.len() == 0,
        bank_up(
            p,
            q,
            r,
            Some(
                Tree::Object(
                    b + seq![
                        (
                            "config"@,
                            Tree::Object(b + seq![("observations_mission"@, Tree::Text(s))] + a),
                        ),
                    ] + a,
                ),
            ),
            p,
        ).observations_mission == s,
        bank_up(
            p,
            q,
            r,
            p,
            Some(Tree::Object(b + seq![("items"@, Tree::Array(items))] + a)),
        ).stale_candidates == items.filter(|m: Tree| stale(memory_text(m))).len(),
{
    fields_are_found_by_name(b, "api_version"@, Tree::Text(s), a);
    fields_are_found_by_name(b, "observations_mission"@, Tree::Text(s), a);
    let inner = Tree::Object(b + seq![("observations_mission"@, Tree::Text(s))] + a);
    fields_are_found_by_name(b, "config"@, inner, a);
    dry_runs_count_the_stale(b, items, a);
}

/// The queries go to the service on this machine, each to an address of its own.
pub proof fn queries_have_their_addresses()
    ensures
        API_URL@ + query_path(Query::Health) == "http://127.0.0.1:8888/health"@,
        API_URL@ + query_path(Query::Version) == "http://127.0.0.1:8888/version"@,
        API_URL@ + query_path(Query::Totals)
            == "http://127.0.0.1:8888/v1/default/banks/hermes/memories/list?limit=1"@,
        API_URL@ + query_path(Query::Stats)
            == "http://127.0.0.1:8888/v1/default/banks/hermes/stats"@,
        API_URL@ + query_path(Query::Config)
            == "http://127.0.0.1:8888/v1/default/banks/hermes/config"@,
        API_URL@ + query_path(Query::Memories)
            == "http://127.0.0.1:8888/v1/default/banks/hermes/memories/list?limit=600"@,
        API_URL@ + query_path(Query::Metrics) == "http://127.0.0.1:8888/metrics"@,
{
    reveal_strlit("http://127.0.0.1:8888");
    reveal_strlit("/v1/default/banks/hermes");
    reveal_strlit("/health");
    reveal_strlit("http://127.0.0.1:8888/health");
    assert(API_URL@ + "/health"@ =~= "http://127.0.0.1:8888/health"@);
    reveal_strlit("/version");
    reveal_strlit("http://127.0.0.1:8888/version");
    assert(API_URL@ + "/version"@ =~= "http://127.0.0.1:8888/version"@);
    reveal_strlit("/memories/list?limit=1");
    reveal_strlit("http://127.0.0.1:8888/v1/default/banks/hermes/memories/list?limit=1");
    assert(API_URL@ + (BANK_PATH@ + "/memories/list?limit=1"@)
        =~= "http://127.0.0.1:8888/v1/default/banks/hermes/memories/list?limit=1"@);
    reveal_strlit("/stats");
    reveal_strlit("http://127.0.0.1:8888/v1/default/banks/hermes/stats");
    assert(API_URL@ + (BANK_PATH@ + "/stats"@)
        =~= "http://127.0.0.1:8888/v1/default/banks/hermes/stats"@);
    reveal_strlit("/config");
    reveal_strlit("http://127.0.0.1:8888/v1/default/banks/hermes/config");
    assert(API_URL@ + (BANK_PATH@ + "/config"@)
        =~= "http://127.0.0.1:8888/v1/default/banks/hermes/config"@);
    reveal_strlit("/memories/list?limit=600");
    reveal_strlit("http://127.0.0.1:8888/v1/default/banks/hermes/memories/list?limit=600");
    assert(API_URL@ + (BANK_PATH@ + "/memories/list?limit=600"@)
        =~= "http://127.0.0.1:8888/v1/default/banks/hermes/memories/list?limit=600"@);
    reveal_strlit("/metrics");
    reveal_strlit("http://127.0.0.1:8888/metrics");
    assert(API_URL@ + "/metrics"@ =~= "http://127.0.0.1:8888/metrics"@);
}

/// A reply is the document that a command that succeeded wrote; a command that
/// failed gives none. Of a service that is down, nothing is known.
pub proof fn only_success_replies(stdout: String, stderr: String, why: String)
    ensures
        reply(Ran::Done { success: true, stdout, stderr }) == json_tree(stdout@),
        reply(Ran::Done { success: false, stdout, stderr }) is None,
        reply(Ran::Failed(why)) is None,
        !bank_down().running,
        bank_down().version.len() == 0,
        bank_down().observations_mission.len() == 0,
        bank_down().total_memories == 0,
        bank_down().total_links == 0,
        bank_down().total_documents == 0,
        bank_down().fact_world == 0,
        bank_down().fact_experience == 0,
        bank_down().fact_observation == 0,
        bank_down().stale_candidates == 0,
{
}

} // verus!
