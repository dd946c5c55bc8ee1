//! Laws that relate several operations of the library.

use vstd::prelude::*;
use crate::model::{Llm, Policy, find_llm_spec, find_policy_spec};
use crate::text::trim_spec;
use crate::validate::{Violation, first_llm_violation, llm_field_violation, policy_violation};

verus! {

/// Round-trip lookup: the policy at any in-range position can be found
/// again by its own name, and the policy found has the same trimmed
/// name. (With duplicate names the first match wins, so the policy
/// found may be an earlier one of the same name.)
pub proof fn lemma_round_trip_lookup(ps: Seq<Policy>, i: int)
    requires
        0 <= i < ps.len(),
    ensures
        find_policy_spec(ps, ps[i].name@) is Some,
        trim_spec(find_policy_spec(ps, ps[i].name@)->0.name@) == trim_spec(ps[i].name@),
    decreases ps.len(),
{
    if trim_spec(ps[0].name@) != trim_spec(ps[i].name@) {
        lemma_round_trip_lookup(ps.drop_first(), i - 1);
        assert(ps.drop_first()[i - 1] == ps[i]);
    }
}

/// Trim-insensitive lookup: two queries with the same trimmed form
/// find the same policy.
pub proof fn lemma_trim_insensitive_lookup(ps: Seq<Policy>, n1: Seq<char>, n2: Seq<char>)
    requires
        trim_spec(n1) == trim_spec(n2),
    ensures
        find_policy_spec(ps, n1) == find_policy_spec(ps, n2),
    decreases ps.len(),
{
    if ps.len() > 0 {
        lemma_trim_insensitive_lookup(ps.drop_first(), n1, n2);
    }
}

/// Trim-insensitive lookup among a policy's endpoints.
pub proof fn lemma_trim_insensitive_llm_lookup(ls: Seq<Llm>, n1: Seq<char>, n2: Seq<char>)
    requires
        trim_spec(n1) == trim_spec(n2),
    ensures
        find_llm_spec(ls, n1) == find_llm_spec(ls, n2),
    decreases ls.len(),
{
    if ls.len() > 0 {
        lemma_trim_insensitive_llm_lookup(ls.drop_first(), n1, n2);
    }
}

/// The violation reported for an endpoint list is the one at the first
/// offending endpoint, whatever violations later endpoints hold.
pub proof fn lemma_first_llm_violation_at(ls: Seq<Llm>, a: int)
    requires
        0 <= a < ls.len(),
        forall|k: int| 0 <= k < a ==> llm_field_violation(#[trigger] ls[k]) is None,
        llm_field_violation(ls[a]) is Some,
    ensures
        first_llm_violation(ls) == Some(
            Violation::LlmField { llm: ls[a].name@, field: llm_field_violation(ls[a])->0 },
        ),
    decreases a,
{
    if a > 0 {
        lemma_first_llm_violation_at(ls.drop_first(), a - 1);
        assert(forall|k: int| 0 <= k < a - 1 ==> ls.drop_first()[k] == ls[k + 1]);
        assert(ls.drop_first()[a - 1] == ls[a]);
    }
}

/// Fail-fast ordering: in a policy with a well-formed name whose
/// endpoints are clean before position `a`, an empty `api_base` at `a`
/// is what validation reports — not a violation of a later endpoint.
pub proof fn lemma_fail_fast_ordering(p: Policy, a: int)
    requires
        p.name@.len() != 0,
        0 <= a < p.llms@.len(),
        forall|k: int| 0 <= k < a ==> llm_field_violation(#[trigger] p.llms@[k]) is None,
        p.llms@[a].api_base@.len() == 0,
    ensures
        policy_violation(p) == Some(
            Violation::LlmField { llm: p.llms@[a].name@, field: "api_base"@ },
        ),
{
    lemma_first_llm_violation_at(p.llms@, a);
}

} // verus!
