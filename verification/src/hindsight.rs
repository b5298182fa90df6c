//! The local memory service: its replies, its totals, and the sweep of stale
//! memories.

use vstd::prelude::*;
use crate::command::Ran;
use crate::json::{parse, Json, Tree, json_tree};
use crate::text::{chars_of, contains, has_text, nothing, same, texts};

verus! {

broadcast use vstd::string::group_string_axioms;

/// Where the service listens.
pub const API_URL: &'static str = "http://127.0.0.1:8888";

/// Under which path the service keeps the bank.
pub const BANK_PATH: &'static str = "/v1/default/banks/hermes";

/// A snapshot of the memory bank.
#[derive(Debug, Clone)]
pub struct BankInfo {
    /// Whether the service answers.
    pub running: bool,
    /// The version that the service reports; empty when it is down.
    pub version: String,
    pub total_memories: u64,
    pub total_links: u64,
    pub total_documents: u64,
    pub fact_world: u64,
    pub fact_experience: u64,
    pub fact_observation: u64,
    pub observations_mission: String,
    pub stale_candidates: usize,
}

/// What a snapshot holds.
pub struct BankView {
    pub running: bool,
    pub version: Seq<char>,
    pub total_memories: u64,
    pub total_links: u64,
    pub total_documents: u64,
    pub fact_world: u64,
    pub fact_experience: u64,
    pub fact_observation: u64,
    pub observations_mission: Seq<char>,
    pub stale_candidates: nat,
}

impl View for BankInfo {
    type V = BankView;

    open spec fn view(&self) -> BankView {
        BankView {
            running: self.running,
            version: self.version@,
            total_memories: self.total_memories,
            total_links: self.total_links,
            total_documents: self.total_documents,
            fact_world: self.fact_world,
            fact_experience: self.fact_experience,
            fact_observation: self.fact_observation,
            observations_mission: self.observations_mission@,
            stale_candidates: self.stale_candidates as nat,
        }
    }
}

/// The snapshot of a service that is down.
pub open spec fn bank_down() -> BankView {
    BankView {
        running: false,
        version: Seq::empty(),
        total_memories: 0,
        total_links: 0,
        total_documents: 0,
        fact_world: 0,
        fact_experience: 0,
        fact_observation: 0,
        observations_mission: Seq::empty(),
        stale_candidates: 0,
    }
}

impl Default for BankInfo {
    fn default() -> (r: BankInfo)
        ensures
            r@ == bank_down(),
    {
        BankInfo {
            running: false,
            version: String::new(),
            total_memories: 0,
            total_links: 0,
            total_documents: 0,
            fact_world: 0,
            fact_experience: 0,
            fact_observation: 0,
            observations_mission: String::new(),
            stale_candidates: 0,
        }
    }
}

/// What the service is asked.
#[derive(Debug, Clone, Copy, PartialEq, Eq, Structural)]
pub enum Query {
    Health,
    Version,
    Totals,
    Stats,
    Config,
    Memories,
    Metrics,
}

/// The path under which a query is asked.
pub open spec fn query_path(q: Query) -> Seq<char> {
    match q {
        Query::Health => "/health"@,
        Query::Version => "/version"@,
        Query::Totals => BANK_PATH@ + "/memories/list?limit=1"@,
        Query::Stats => BANK_PATH@ + "/stats"@,
        Query::Config => BANK_PATH@ + "/config"@,
        Query::Memories => BANK_PATH@ + "/memories/list?limit=600"@,
        Query::Metrics => "/metrics"@,
    }
}

/// The address of a query.
pub fn query_url(q: Query) -> (r: String)
    ensures
        r@ == API_URL@ + query_path(q),
{
    let mut out = API_URL.to_owned();
    match q {
        Query::Health => out.append("/health"),
        Query::Version => out.append("/version"),
        Query::Totals => {
            out.append(BANK_PATH);
            out.append("/memories/list?limit=1");
        },
        Query::Stats => {
            out.append(BANK_PATH);
            out.append("/stats");
        },
        Query::Config => {
            out.append(BANK_PATH);
            out.append("/config");
        },
        Query::Memories => {
            out.append(BANK_PATH);
            out.append("/memories/list?limit=600");
        },
        Query::Metrics => out.append("/metrics"),
    }
    assert(out@ =~= API_URL@ + query_path(q));
    out
}

/// The texts of a list of string slices.
pub open spec fn slices(v: Seq<&str>) -> Seq<Seq<char>> {
    v.map_values(|s: &str| s@)
}

/// Phrases that mark a memory as stale.
pub open spec fn stale_marks() -> Seq<Seq<char>> {
    seq![
        "406 tests"@,
        "410 tests"@,
        "still NULL"@,
        "not yet utilized"@,
        "remain unused"@,
        "one commit ahead"@,
        "on-demand"@,
        "no cron"@,
        "human-dependent"@,
        "failing test"@,
        "red pre-push"@,
    ]
}

/// Phrases that mark a memory as corrected.
pub open spec fn correction_marks() -> Seq<Seq<char>> {
    seq![
        "415"@,
        "41/45"@,
        "merged"@,
        "verified"@,
        "proven"@,
        "not NULL"@,
        "no failing"@,
        "SUPERSEDED"@,
        "stale"@,
        "false"@,
        "correct"@,
        "not used"@,
    ]
}

/// Whether a text holds one of some phrases.
pub open spec fn mentions(text: Seq<char>, marks: Seq<Seq<char>>) -> bool {
    exists|i: int| 0 <= i < marks.len() && has_text(text, #[trigger] marks[i])
}

/// Whether a text is stale: it holds a stale phrase, and none that corrects it.
pub open spec fn stale(text: Seq<char>) -> bool {
    mentions(text, stale_marks()) && !mentions(text, correction_marks())
}

/// The text of a field; empty if it is missing or no string.
pub open spec fn text_field(t: Tree, key: Seq<char>) -> Seq<char> {
    match t.field(key) {
        Some(v) => match v.as_text() {
            Some(s) => s,
            None => Seq::empty(),
        },
        None => Seq::empty(),
    }
}

/// The number in a field; zero if it is missing or no `u64`.
pub open spec fn number_field(t: Tree, key: Seq<char>) -> u64 {
    match t.field(key) {
        Some(v) => match v.as_number() {
            Some(n) => n,
            None => 0,
        },
        None => 0,
    }
}

/// What a memory says: its `text`, or its `content` where it has no `text`.
pub open spec fn memory_text(m: Tree) -> Seq<char> {
    if m.field("text"@) is Some {
        text_field(m, "text"@)
    } else {
        text_field(m, "content"@)
    }
}

/// The memories in a reply; none if it holds no list of them.
pub open spec fn memories(reply: Tree) -> Seq<Tree> {
    match reply.field("items"@) {
        Some(v) => v.items(),
        None => Seq::empty(),
    }
}

/// The memories that are stale.
pub open spec fn stale_memories(all: Seq<Tree>) -> Seq<Tree> {
    all.filter(|m: Tree| stale(memory_text(m)))
}

/// Whether the sweep invalidates a memory: it is stale, it can be named, and it
/// is about the world or an experience.
pub open spec fn swept(m: Tree) -> bool {
    &&& text_field(m, "id"@).len() > 0
    &&& text_field(m, "fact_type"@) == "world"@ || text_field(m, "fact_type"@) == "experience"@
    &&& stale(memory_text(m))
}

/// The ids of the memories that the sweep invalidates.
pub open spec fn swept_ids(all: Seq<Tree>) -> Seq<Seq<char>> {
    all.filter(|m: Tree| swept(m)).map_values(|m: Tree| text_field(m, "id"@))
}

fn stale_phrases() -> (r: Vec<&'static str>)
    ensures
        slices(r@) == stale_marks(),
{
    let r = vec![
        "406 tests",
        "410 tests",
        "still NULL",
        "not yet utilized",
        "remain unused",
        "one commit ahead",
        "on-demand",
        "no cron",
        "human-dependent",
        "failing test",
        "red pre-push",
    ];
    assert(slices(r@) =~= stale_marks());
    r
}

fn correction_phrases() -> (r: Vec<&'static str>)
    ensures
        slices(r@) == correction_marks(),
{
    let r = vec![
        "415",
        "41/45",
        "merged",
        "verified",
        "proven",
        "not NULL",
        "no failing",
        "SUPERSEDED",
        "stale",
        "false",
        "correct",
        "not used",
    ];
    assert(slices(r@) =~= correction_marks());
    r
}

/// Whether a text holds one of some phrases.
fn mentions_any(text: &Vec<char>, marks: &Vec<&'static str>) -> (r: bool)
    ensures
        r == mentions(text@, slices(marks@)),
{
    let mut i: usize = 0;
    while i < marks.len()
        invariant
            i <= marks@.len(),
            forall|k: int| 0 <= k < i ==> !has_text(text@, #[trigger] slices(marks@)[k]),
        decreases marks@.len() - i,
    {
        assert(slices(marks@)[i as int] == marks@[i as int]@);
        if contains(text, marks[i]) {
            return true;
        }
        i += 1;
    }
    false
}

/// Whether a memory's text is stale.
pub fn is_stale(text: &str) -> (r: bool)
    ensures
        r == stale(text@),
{
    let t = chars_of(text);
    mentions_any(&t, &stale_phrases()) && !mentions_any(&t, &correction_phrases())
}

/// The text of a field.
fn text_in<'a>(m: &'a Json, key: &str) -> (r: &'a str)
    ensures
        r@ == text_field(m.tree(), key@),
{
    match m.get(key) {
        Some(v) => match v.as_str() {
            Some(s) => s,
            None => nothing(),
        },
        None => nothing(),
    }
}

/// The number in a field.
fn number_in(m: &Json, key: &str) -> (r: u64)
    ensures
        r == number_field(m.tree(), key@),
{
    match m.get(key) {
        Some(v) => match v.as_u64() {
            Some(n) => n,
            None => 0,
        },
        None => 0,
    }
}

/// What a memory says.
fn text_of_memory<'a>(m: &'a Json) -> (r: &'a str)
    ensures
        r@ == memory_text(m.tree()),
{
    match m.get("text") {
        Some(_) => text_in(m, "text"),
        None => text_in(m, "content"),
    }
}

/// Counts the stale memories in a reply.
pub fn count_stale(reply: &Json) -> (r: usize)
    ensures
        r == stale_memories(memories(reply.tree())).len(),
{
    let ghost p = |m: Tree| stale(memory_text(m));
    let items = match reply.get("items") {
        Some(v) => v,
        None => {
            assert(stale_memories(Seq::empty()) =~= Seq::empty()) by {
                reveal(Seq::filter);
            }
            return 0;
        },
    };
    let ghost all = items.tree().items();
    let n = items.len();
    let mut count: usize = 0;
    let mut i: usize = 0;
    proof {
        reveal(Seq::filter);
        assert(all.take(0).filter(p) =~= Seq::empty());
    }
    while i < n
        invariant
            all == items.tree().items(),
            p == (|m: Tree| stale(memory_text(m))),
            i <= n == all.len(),
            count == all.take(i as int).filter(p).len(),
            count <= i,
        decreases all.len() - i,
    {
        let m = items.item(i);
        proof {
            reveal(Seq::filter);
            assert(all.take(i + 1).drop_last() =~= all.take(i as int));
        }
        if is_stale(text_of_memory(m)) {
            count += 1;
        }
        i += 1;
    }
    assert(all.take(i as int) =~= all);
    count
}

/// The ids of the memories in a reply that the sweep is to invalidate.
pub fn sweep_ids(reply: &Json) -> (r: Vec<String>)
    ensures
        texts(r@) == swept_ids(memories(reply.tree())),
{
    let ghost p = |m: Tree| swept(m);
    let ghost id = |m: Tree| text_field(m, "id"@);
    let mut out: Vec<String> = Vec::new();
    let items = match reply.get("items") {
        Some(v) => v,
        None => {
            proof {
                reveal(Seq::filter);
                assert(texts(out@) =~= swept_ids(Seq::empty()));
            }
            return out;
        },
    };
    let ghost all = items.tree().items();
    let mut i: usize = 0;
    proof {
        reveal(Seq::filter);
        assert(texts(out@) =~= all.take(0).filter(p).map_values(id));
    }
    while i < items.len()
        invariant
            all == items.tree().items(),
            p == (|m: Tree| swept(m)),
            id == (|m: Tree| text_field(m, "id"@)),
            i <= all.len(),
            texts(out@) == all.take(i as int).filter(p).map_values(id),
        decreases all.len() - i,
    {
        let m = items.item(i);
        let ghost done = out@;
        proof {
            reveal(Seq::filter);
            assert(all.take(i + 1).drop_last() =~= all.take(i as int));
        }
        let name = text_in(m, "id");
        let kind = chars_of(text_in(m, "fact_type"));
        if !name.is_empty() && (same(&kind, "world") || same(&kind, "experience")) && is_stale(
            text_of_memory(m),
        ) {
            out.push(name.to_owned());
            assert(texts(out@) =~= texts(done).push(name@));
            assert(all.take(i + 1).filter(p).map_values(id) =~= all.take(i as int).filter(
                p,
            ).map_values(id).push(name@));
        }
        i += 1;
    }
    assert(all.take(i as int) =~= all);
    out
}

/// What a query's reply holds: JSON, where the query succeeded.
pub open spec fn reply(r: Ran) -> Option<Tree> {
    match r.good() {
        Some(t) => json_tree(t),
        None => None,
    }
}

/// What an optional document holds.
pub open spec fn held(j: Option<Json>) -> Option<Tree> {
    match j {
        Some(j) => Some(j.tree()),
        None => None,
    }
}

/// Reads the reply of a query.
pub fn curl_json(r: &Ran) -> (j: Option<Json>)
    ensures
        held(j) == reply(*r),
{
    match r.output() {
        Some(t) => parse(t),
        None => None,
    }
}

/// Whether the service is up: it answers the health query.
pub fn is_running(health: &Ran) -> (r: bool)
    ensures
        r == health.good() is Some,
{
    health.succeeded()
}

/// The version in a reply, if it holds one.
pub open spec fn version_in(reply: Option<Tree>) -> Option<Seq<char>> {
    match reply {
        Some(t) => match t.field("api_version"@) {
            Some(v) => v.as_text(),
            None => None,
        },
        None => None,
    }
}

/// The version in a document.
pub fn document_version(reply: &Option<Json>) -> (r: Option<String>)
    ensures
        match r {
            Some(s) => version_in(held(*reply)) == Some(s@),
            None => version_in(held(*reply)) is None,
        },
{
    match reply {
        Some(j) => match j.get("api_version") {
            Some(v) => match v.as_str() {
                Some(s) => Some(s.to_owned()),
                None => None,
            },
            None => None,
        },
        None => None,
    }
}

/// The version that the service reports.
pub fn api_version(version: &Ran) -> (r: Option<String>)
    ensures
        match r {
            Some(s) => version_in(reply(*version)) == Some(s@),
            None => version_in(reply(*version)) is None,
        },
{
    document_version(&curl_json(version))
}

/// A text, or the empty one.
pub open spec fn or_empty(s: Option<Seq<char>>) -> Seq<char> {
    match s {
        Some(s) => s,
        None => Seq::empty(),
    }
}

/// The number in a field of a reply; zero without a reply.
pub open spec fn number_at(reply: Option<Tree>, key: Seq<char>) -> u64 {
    match reply {
        Some(t) => number_field(t, key),
        None => 0,
    }
}

/// The part of a reply under a key.
pub open spec fn part_of(reply: Option<Tree>, key: Seq<char>) -> Option<Tree> {
    match reply {
        Some(t) => t.field(key),
        None => None,
    }
}

/// The text in a field of a reply; empty without a reply.
pub open spec fn text_at(reply: Option<Tree>, key: Seq<char>) -> Seq<char> {
    match reply {
        Some(t) => text_field(t, key),
        None => Seq::empty(),
    }
}

/// How many memories of a reply are stale; none without a reply.
pub open spec fn dry_run(reply: Option<Tree>) -> nat {
    match reply {
        Some(t) => stale_memories(memories(t)).len(),
        None => 0,
    }
}

/// The snapshot of a service that is up, from its replies.
pub open spec fn bank_up(
    version: Option<Tree>,
    totals: Option<Tree>,
    stats: Option<Tree>,
    config: Option<Tree>,
    list: Option<Tree>,
) -> BankView {
    let facts = part_of(stats, "nodes_by_fact_type"@);
    BankView {
        running: true,
        version: or_empty(version_in(version)),
        total_memories: number_at(totals, "total"@),
        total_links: number_at(stats, "total_links"@),
        total_documents: number_at(stats, "total_documents"@),
        fact_world: number_at(facts, "world"@),
        fact_experience: number_at(facts, "experience"@),
        fact_observation: number_at(facts, "observation"@),
        observations_mission: text_at(part_of(config, "config"@), "observations_mission"@),
        stale_candidates: dry_run(list),
    }
}

/// The number in a field of a document.
fn number_or_zero(reply: &Option<Json>, key: &str) -> (r: u64)
    ensures
        r == number_at(held(*reply), key@),
{
    match reply {
        Some(j) => number_in(j, key),
        None => 0,
    }
}

/// The number in a field of a part of a document.
fn number_under(reply: &Option<Json>, part: &str, key: &str) -> (r: u64)
    ensures
        r == number_at(part_of(held(*reply), part@), key@),
{
    match reply {
        Some(j) => match j.get(part) {
            Some(p) => number_in(p, key),
            None => 0,
        },
        None => 0,
    }
}

/// The text in a field of a part of a document.
fn text_under(reply: &Option<Json>, part: &str, key: &str) -> (r: String)
    ensures
        r@ == text_at(part_of(held(*reply), part@), key@),
{
    match reply {
        Some(j) => match j.get(part) {
            Some(p) => text_in(p, key).to_owned(),
            None => String::new(),
        },
        None => String::new(),
    }
}

/// How many memories of a document are stale.
fn stale_in(list: &Option<Json>) -> (r: usize)
    ensures
        r == dry_run(held(*list)),
{
    match list {
        Some(j) => count_stale(j),
        None => 0,
    }
}

/// The snapshot of a service that is up, from the documents that it replied.
pub fn bank_info(
    version: &Option<Json>,
    totals: &Option<Json>,
    stats: &Option<Json>,
    config: &Option<Json>,
    list: &Option<Json>,
) -> (r: BankInfo)
    ensures
        r@ == bank_up(held(*version), held(*totals), held(*stats), held(*config), held(*list)),
{
    let reported = match document_version(version) {
        Some(s) => s,
        None => String::new(),
    };
    BankInfo {
        running: true,
        version: reported,
        total_memories: number_or_zero(totals, "total"),
        total_links: number_or_zero(stats, "total_links"),
        total_documents: number_or_zero(stats, "total_documents"),
        fact_world: number_under(stats, "nodes_by_fact_type", "world"),
        fact_experience: number_under(stats, "nodes_by_fact_type", "experience"),
        fact_observation: number_under(stats, "nodes_by_fact_type", "observation"),
        observations_mission: text_under(config, "config", "observations_mission"),
        stale_candidates: stale_in(list),
    }
}

/// The snapshot of the service, from what came of asking it. A service that
/// does not answer the health query is down, whatever the other queries say.
pub fn info(
    health: &Ran,
    version: &Ran,
    totals: &Ran,
    stats: &Ran,
    config: &Ran,
    list: &Ran,
) -> (r: BankInfo)
    ensures
        health.good() is Some ==> r@ == bank_up(
            reply(*version),
            reply(*totals),
            reply(*stats),
            reply(*config),
            reply(*list),
        ),
        health.good() is None ==> r@ == bank_down(),
{
    if !is_running(health) {
        return BankInfo::default();
    }
    bank_info(
        &curl_json(version),
        &curl_json(totals),
        &curl_json(stats),
        &curl_json(config),
        &curl_json(list),
    )
}

/// Counts the memories that a sweep would find stale; nothing is changed.
pub fn dry_run_sweep_count(list: &Ran) -> (r: usize)
    ensures
        r == dry_run(reply(*list)),
{
    stale_in(&curl_json(list))
}

/// The ids that a sweep invalidates; none without a reply.
pub open spec fn sweep_of(reply: Option<Tree>) -> Seq<Seq<char>> {
    match reply {
        Some(t) => swept_ids(memories(t)),
        None => Seq::empty(),
    }
}

/// The ids of the memories that a sweep is to invalidate.
pub fn sweep_targets(list: &Ran) -> (r: Vec<String>)
    ensures
        texts(r@) == sweep_of(reply(*list)),
{
    match curl_json(list) {
        Some(j) => sweep_ids(&j),
        None => {
            let out: Vec<String> = Vec::new();
            assert(texts(out@) =~= Seq::<Seq<char>>::empty());
            out
        },
    }
}

/// What came of a sweep, from what came of each of its requests: how many
/// memories were invalidated, and how many requests failed.
pub fn apply_sweep(requests: &Vec<Ran>) -> (r: (usize, usize))
    ensures
        r.0 == requests@.filter(|q: Ran| q.good() is Some).len(),
        r.0 + r.1 == requests@.len(),
{
    let ghost p = |q: Ran| q.good() is Some;
    let mut ok: usize = 0;
    let mut failed: usize = 0;
    let mut i: usize = 0;
    proof {
        reveal(Seq::filter);
        assert(requests@.take(0).filter(p) =~= Seq::empty());
    }
    while i < requests.len()
        invariant
            i <= requests.len(),
            p == (|q: Ran| q.good() is Some),
            ok == requests@.take(i as int).filter(p).len(),
            ok + failed == i,
        decreases requests.len() - i,
    {
        proof {
            reveal(Seq::filter);
            assert(requests@.take(i + 1).drop_last() =~= requests@.take(i as int));
        }
        if requests[i].succeeded() {
            ok += 1;
        } else {
            failed += 1;
        }
        i += 1;
    }
    assert(requests@.take(i as int) =~= requests@);
    (ok, failed)
}

/// Whether a character stands for itself in a JSON string.
pub open spec fn plain(c: char) -> bool {
    ' ' <= c <= '~' && c != '"' && c != '\\'
}

/// Whether a text stands for itself in a JSON string.
pub open spec fn all_plain(s: Seq<char>) -> bool {
    forall|i: int| 0 <= i < s.len() ==> plain(#[trigger] s[i])
}

/// The JSON text of an object with two text fields.
pub open spec fn object_with(
    k1: Seq<char>,
    v1: Seq<char>,
    k2: Seq<char>,
    v2: Seq<char>,
) -> Seq<char> {
    "{\""@ + k1 + "\":\""@ + v1 + "\",\""@ + k2 + "\":\""@ + v2 + "\"}"@
}

/// `serde_json::Value::to_string` of an object with two text fields: compact
/// JSON, with the fields in the order of their names. The names are given in
/// that order, and no text holds a character that JSON escapes.
#[verifier::external_body]
fn object_text(k1: &str, v1: &str, k2: &str, v2: &str) -> (r: String)
    requires
        all_plain(k1@),
        all_plain(v1@),
        all_plain(k2@),
        all_plain(v2@),
        k1@.len() > 0,
        k2@.len() > 0,
        k1@[0] < k2@[0],
    ensures
        r@ == object_with(k1@, v1@, k2@, v2@),
{
    let mut fields = serde_json::Map::new();
    fields.insert(k1.to_string(), serde_json::Value::from(v1));
    fields.insert(k2.to_string(), serde_json::Value::from(v2));
    serde_json::Value::Object(fields).to_string()
}

/// What is sent to invalidate a memory.
pub fn invalidation() -> (r: String)
    ensures
        r@ == object_with(
            "reason"@,
            "stale-wrong: superseded by live-verified fact"@,
            "state"@,
            "invalidated"@,
        ),
{
    proof {
        reveal_strlit("reason");
        reveal_strlit("stale-wrong: superseded by live-verified fact");
        reveal_strlit("state");
        reveal_strlit("invalidated");
    }
    object_text(
        "reason",
        "stale-wrong: superseded by live-verified fact",
        "state",
        "invalidated",
    )
}

/// The address of a memory.
pub open spec fn memory_address(id: Seq<char>) -> Seq<char> {
    API_URL@ + BANK_PATH@ + "/memories/"@ + id
}

/// The arguments with which `curl` asks a query. With `-f` it fails where the
/// service replies with an HTTP error.
pub fn query_args(q: Query) -> (r: Vec<String>)
    ensures
        texts(r@) == seq!["-f"@, "-s"@, "-m"@, "2"@, API_URL@ + query_path(q)],
{
    let r = vec![
        "-f".to_owned(),
        "-s".to_owned(),
        "-m".to_owned(),
        "2".to_owned(),
        query_url(q),
    ];
    assert(texts(r@) =~= seq!["-f"@, "-s"@, "-m"@, "2"@, API_URL@ + query_path(q)]);
    r
}

/// The arguments with which `curl` invalidates a memory. With `-f` it fails
/// where the service refuses with an HTTP error.
pub open spec fn patch_request(id: Seq<char>) -> Seq<Seq<char>> {
    seq![
        "-f"@,
        "-s"@,
        "-m"@,
        "15"@,
        "-X"@,
        "PATCH"@,
        memory_address(id),
        "-H"@,
        "Content-Type: application/json"@,
        "-d"@,
        object_with(
            "reason"@,
            "stale-wrong: superseded by live-verified fact"@,
            "state"@,
            "invalidated"@,
        ),
    ]
}

/// The arguments with which `curl` invalidates a memory.
pub fn patch_args(id: &str) -> (r: Vec<String>)
    ensures
        texts(r@) == patch_request(id@),
{
    let mut url = API_URL.to_owned();
    url.append(BANK_PATH);
    url.append("/memories/");
    url.append(id);
    let r = vec![
        "-f".to_owned(),
        "-s".to_owned(),
        "-m".to_owned(),
        "15".to_owned(),
        "-X".to_owned(),
        "PATCH".to_owned(),
        url,
        "-H".to_owned(),
        "Content-Type: application/json".to_owned(),
        "-d".to_owned(),
        invalidation(),
    ];
    assert(texts(r@) =~= patch_request(id@));
    r
}

/// The arguments with which `curl` invalidates each of some memories.
pub open spec fn patch_requests(ids: Seq<Seq<char>>) -> Seq<Seq<Seq<char>>> {
    ids.map_values(|id: Seq<char>| patch_request(id))
}

/// The views of lists of texts.
pub open spec fn text_lists(v: Seq<Vec<String>>) -> Seq<Seq<Seq<char>>> {
    v.map_values(|l: Vec<String>| texts(l@))
}

/// The requests of a sweep, as arguments of `curl`: one for each memory that it
/// is to invalidate, in their order, and none besides.
pub fn sweep_requests(list: &Ran) -> (r: Vec<Vec<String>>)
    ensures
        text_lists(r@) == patch_requests(sweep_of(reply(*list))),
{
    let ids = sweep_targets(list);
    let ghost all = texts(ids@);
    let mut out: Vec<Vec<String>> = Vec::new();
    let mut i: usize = 0;
    while i < ids.len()
        invariant
            i <= ids@.len(),
            all == texts(ids@),
            out@.len() == i,
            forall|j: int| 0 <= j < i ==> texts((#[trigger] out@[j])@) == patch_request(all[j]),
        decreases ids@.len() - i,
    {
        assert(all[i as int] == ids@[i as int]@);
        out.push(patch_args(ids[i].as_str()));
        i += 1;
    }
    assert(text_lists(out@) =~= patch_requests(all));
    out
}

/// The sweep invalidates no more memories than the dry run counts.
pub proof fn sweep_within_dry_run(reply: Option<Tree>)
    ensures
        sweep_of(reply).len() <= dry_run(reply),
{
    if let Some(t) = reply {
        lemma_fewer_swept(memories(t));
    }
}

/// The sweep invalidates as many memories as the dry run counts exactly if every
/// stale memory can be named and is about the world or an experience.
pub proof fn sweep_equals_dry_run(reply: Tree)
    ensures
        sweep_of(Some(reply)).len() == dry_run(Some(reply)) <==> forall|m: Tree|
            #![trigger swept(m)]
            memories(reply).contains(m) && stale(memory_text(m)) ==> text_field(m, "id"@).len() > 0
                && (text_field(m, "fact_type"@) == "world"@ || text_field(m, "fact_type"@)
                == "experience"@),
{
    let all = memories(reply);
    lemma_all_swept(all);
    if forall|i: int| 0 <= i < all.len() && stale(memory_text(#[trigger] all[i])) ==> swept(all[i]) {
        assert forall|m: Tree|
            #![trigger swept(m)]
            all.contains(m) && stale(memory_text(m)) implies swept(m) by {
            let i = choose|i: int| 0 <= i < all.len() && all[i] == m;
            assert(stale(memory_text(all[i])));
        }
    } else {
        let i = choose|i: int|
            0 <= i < all.len() && stale(memory_text(#[trigger] all[i])) && !swept(all[i]);
        assert(all.contains(all[i]));
    }
}

proof fn lemma_all_swept(all: Seq<Tree>)
    ensures
        all.filter(|m: Tree| swept(m)).len() == stale_memories(all).len() <==> forall|i: int|
            0 <= i < all.len() && stale(memory_text(#[trigger] all[i])) ==> swept(all[i]),
    decreases all.len(),
{
    reveal(Seq::filter);
    if all.len() > 0 {
        let rest = all.drop_last();
        let last = all.last();
        lemma_all_swept(rest);
        lemma_fewer_swept(rest);
        assert(all[all.len() - 1] == last);
        if forall|i: int|
            0 <= i < rest.len() && stale(memory_text(#[trigger] rest[i])) ==> swept(rest[i]) {
            assert forall|i: int|
                0 <= i < all.len() && stale(memory_text(#[trigger] all[i])) && (stale(
                    memory_text(last),
                ) ==> swept(last)) implies swept(all[i]) by {
                if i < rest.len() {
                    assert(rest[i] == all[i]);
                }
            }
        } else {
            let i = choose|i: int|
                0 <= i < rest.len() && stale(memory_text(#[trigger] rest[i])) && !swept(rest[i]);
            assert(all[i] == rest[i]);
            assert(stale(memory_text(all[i])) && !swept(all[i]));
        }
    }
}

proof fn lemma_fewer_swept(all: Seq<Tree>)
    ensures
        all.filter(|m: Tree| swept(m)).len() <= stale_memories(all).len(),
    decreases all.len(),
{
    reveal(Seq::filter);
    if all.len() > 0 {
        lemma_fewer_swept(all.drop_last());
    }
}

/// The sweep invalidates exactly the memories that are stale, can be named and
/// are about the world or an experience: each id that it takes is the id of such
/// a memory, and it takes the id of each such memory.
pub proof fn sweep_takes_exactly_the_swept(reply: Tree, id: Seq<char>)
    ensures
        sweep_of(Some(reply)).contains(id) <==> exists|m: Tree|
            #![trigger swept(m)]
            memories(reply).contains(m) && swept(m) && text_field(m, "id"@) == id,
{
    let all = memories(reply);
    let p = |m: Tree| swept(m);
    let name = |m: Tree| text_field(m, "id"@);
    let kept = all.filter(p);
    broadcast use vstd::seq_lib::group_filter_ensures;

    assert(sweep_of(Some(reply)) == kept.map_values(name));
    if kept.map_values(name).contains(id) {
        let k = choose|k: int| 0 <= k < kept.len() && kept.map_values(name)[k] == id;
        crate::seqs::lemma_filter_within(all, p, k);
        assert(p(kept[k]));
        assert(swept(kept[k]));
    }
    if exists|m: Tree|
        #![trigger swept(m)]
        all.contains(m) && swept(m) && text_field(m, "id"@) == id {
        let m = choose|m: Tree|
            #![trigger swept(m)]
            all.contains(m) && swept(m) && text_field(m, "id"@) == id;
        let j = choose|j: int| 0 <= j < all.len() && all[j] == m;
        assert(p(all[j]));
        assert(kept.contains(all[j]));
        let k = choose|k: int| 0 <= k < kept.len() && kept[k] == m;
        assert(kept.map_values(name)[k] == id);
    }
}

/// The sweep never touches an observation, nor a memory of any other kind than
/// the two that it is for, nor one that carries a correction.
pub proof fn sweep_spares(m: Tree)
    ensures
        text_field(m, "fact_type"@) == "observation"@ ==> !swept(m),
        text_field(m, "fact_type"@) != "world"@ && text_field(m, "fact_type"@) != "experience"@
            ==> !swept(m),
        mentions(memory_text(m), correction_marks()) ==> !swept(m),
{
    reveal_strlit("observation");
    reveal_strlit("world");
    reveal_strlit("experience");
    assert("observation"@[0] != "world"@[0] && "observation"@[0] != "experience"@[0]);
}

/// A memory that carries a correction is not counted as stale.
pub proof fn corrected_is_not_stale(text: Seq<char>, i: int)
    requires
        0 <= i < correction_marks().len(),
        has_text(text, correction_marks()[i]),
    ensures
        !stale(text),
{
}

} // verus!
