//! The models that run on this machine, the embedder and the reranker: what the
//! service's log says of their work.

use vstd::prelude::*;
use crate::metrics::{counted, push_counted};
use crate::text::{decimal, push_decimal};

verus! {

broadcast use vstd::string::group_string_axioms;

/// What the models have done since the log began.
#[derive(Debug, Clone, Copy, PartialEq, Eq, Structural)]
pub struct Models {
    pub reranker_calls: u64,
    pub reranker_candidates: u64,
    /// How long the last call of the reranker took, in milliseconds.
    pub reranker_latency: u64,
    pub retain_units: u64,
    pub query_embeds: u64,
    pub consolidation_calls: u64,
}

/// What is shown of the models, given what was read before.
pub open spec fn models_text(now: Models, earlier: Models) -> Seq<char> {
    "Reranker: calls="@ + counted(now.reranker_calls, earlier.reranker_calls) + " candidates="@
        + counted(now.reranker_candidates, earlier.reranker_candidates) + " latency="@ + decimal(
        now.reranker_latency as nat,
    ) + " ms\nEmbedder: retain-units="@ + counted(now.retain_units, earlier.retain_units)
        + " query-embeds="@ + counted(now.query_embeds, earlier.query_embeds)
        + " consolidation-calls="@ + counted(now.consolidation_calls, earlier.consolidation_calls)
}

/// What is shown of the models.
pub fn show_models(now: &Models, earlier: &Models) -> (r: String)
    ensures
        r@ == models_text(*now, *earlier),
{
    let mut r = "Reranker: calls=".to_owned();
    push_counted(&mut r, now.reranker_calls, earlier.reranker_calls);
    r.append(" candidates=");
    push_counted(&mut r, now.reranker_candidates, earlier.reranker_candidates);
    r.append(" latency=");
    push_decimal(&mut r, now.reranker_latency);
    r.append(" ms\nEmbedder: retain-units=");
    push_counted(&mut r, now.retain_units, earlier.retain_units);
    r.append(" query-embeds=");
    push_counted(&mut r, now.query_embeds, earlier.query_embeds);
    r.append(" consolidation-calls=");
    push_counted(&mut r, now.consolidation_calls, earlier.consolidation_calls);
    r
}

} // verus!
