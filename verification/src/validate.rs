//! Semantic validation of a parsed configuration: required fields,
//! walked in order, failing fast on the first violation.

use vstd::prelude::*;
use crate::error::ConfigError;
use crate::model::{Llm, Policy, RouterConfig};

verus! {

/// A required-field violation, identified by the offending entity's
/// name and the field that is empty.
pub enum Violation {
    PolicyField { policy: Seq<char>, field: Seq<char> },
    LlmField { llm: Seq<char>, field: Seq<char> },
}

/// The first empty required field of one endpoint, in checking order:
/// `api_base`, then `model`, then `api_key`. An `api_key` that is
/// still a placeholder is not a violation.
pub open spec fn llm_field_violation(l: Llm) -> Option<Seq<char>> {
    if l.api_base@.len() == 0 {
        Some("api_base"@)
    } else if l.model@.len() == 0 {
        Some("model"@)
    } else if l.api_key@.len() == 0 {
        Some("api_key"@)
    } else {
        None
    }
}

/// The first violation among a policy's endpoints, in list order.
pub open spec fn first_llm_violation(ls: Seq<Llm>) -> Option<Violation>
    decreases ls.len(),
{
    if ls.len() == 0 {
        None
    } else {
        match llm_field_violation(ls[0]) {
            Some(f) => Some(Violation::LlmField { llm: ls[0].name@, field: f }),
            None => first_llm_violation(ls.drop_first()),
        }
    }
}

/// The first violation within one policy: an empty policy name, else
/// the first offending endpoint.
pub open spec fn policy_violation(p: Policy) -> Option<Violation> {
    if p.name@.len() == 0 {
        Some(Violation::PolicyField { policy: p.name@, field: "name"@ })
    } else {
        first_llm_violation(p.llms@)
    }
}

/// The first violation across all policies, in traversal order.
pub open spec fn first_violation(ps: Seq<Policy>) -> Option<Violation>
    decreases ps.len(),
{
    if ps.len() == 0 {
        None
    } else {
        match policy_violation(ps[0]) {
            Some(v) => Some(v),
            None => first_violation(ps.drop_first()),
        }
    }
}

/// Whether the error `e` reports exactly the violation `v`.
pub open spec fn reports(e: ConfigError, v: Violation) -> bool {
    match (e, v) {
        (
            ConfigError::MissingPolicyField { policy, field },
            Violation::PolicyField { policy: vp, field: vf },
        ) => policy@ == vp && field@ == vf,
        (
            ConfigError::MissingLlmField { llm, field },
            Violation::LlmField { llm: vl, field: vf },
        ) => llm@ == vl && field@ == vf,
        _ => false,
    }
}

/// The literal shape of an unresolved placeholder: the text starts
/// with `"${"` and ends with `'}'`.
pub open spec fn is_placeholder_shaped(s: Seq<char>) -> bool {
    s.len() >= 2 && s[0] == '$' && s[1] == '{' && s[s.len() - 1] == '}'
}

impl Llm {
    /// Whether this endpoint's key, after substitution, still has the
    /// literal shape of a placeholder. Validation tolerates such a key
    /// — it is left to fail at use time — so callers that load a
    /// configuration may warn on it.
    pub fn has_unresolved_key(&self) -> (r: bool)
        ensures
            r == is_placeholder_shaped(self.api_key@),
    {
        let s = self.api_key.as_str();
        let n = s.unicode_len();
        if n < 2 {
            return false;
        }
        s.get_char(0) == '$' && s.get_char(1) == '{' && s.get_char(n - 1) == '}'
    }
}

/// Checks one endpoint; `Err` exactly when the endpoint has an empty
/// required field, reporting the first one in checking order.
fn validate_llm(llm: &Llm) -> (r: Result<(), ConfigError>)
    ensures
        match r {
            Ok(()) => llm_field_violation(*llm) is None,
            Err(e) => {
                &&& llm_field_violation(*llm) is Some
                &&& reports(
                    e,
                    Violation::LlmField { llm: llm.name@, field: llm_field_violation(*llm)->0 },
                )
            },
        },
{
    if llm.api_base.as_str().is_empty() {
        return Err(ConfigError::MissingLlmField {
            llm: llm.name.clone(),
            field: "api_base".to_owned(),
        });
    }
    if llm.model.as_str().is_empty() {
        return Err(ConfigError::MissingLlmField {
            llm: llm.name.clone(),
            field: "model".to_owned(),
        });
    }
    if llm.api_key.as_str().is_empty() {
        return Err(ConfigError::MissingLlmField {
            llm: llm.name.clone(),
            field: "api_key".to_owned(),
        });
    }
    Ok(())
}

/// Walks the policies in order, and within each policy its endpoints
/// in order, and fails fast: `Err` exactly when the configuration
/// holds a violation, reporting the first one in traversal order.
pub fn validate_config(config: &RouterConfig) -> (r: Result<(), ConfigError>)
    ensures
        match r {
            Ok(()) => first_violation(config.policies@) is None,
            Err(e) => {
                &&& first_violation(config.policies@) is Some
                &&& reports(e, first_violation(config.policies@)->0)
            },
        },
{
    let ghost ps = config.policies@;
    proof {
        assert(ps.skip(0) =~= ps);
    }
    let mut i: usize = 0;
    while i < config.policies.len()
        invariant
            0 <= i <= ps.len(),
            ps == config.policies@,
            first_violation(ps) == first_violation(ps.skip(i as int)),
            forall|t: int| 0 <= t < i ==> policy_violation(#[trigger] ps[t]) is None,
        decreases ps.len() - i,
    {
        let policy = &config.policies[i];
        proof {
            assert(ps.skip(i as int)[0] == ps[i as int]);
        }
        if policy.name.as_str().is_empty() {
            return Err(ConfigError::MissingPolicyField {
                policy: policy.name.clone(),
                field: "name".to_owned(),
            });
        }
        let ghost ls = policy.llms@;
        proof {
            assert(ls.skip(0) =~= ls);
        }
        let mut j: usize = 0;
        while j < policy.llms.len()
            invariant
                0 <= j <= ls.len(),
                0 <= i < ps.len(),
                ps == config.policies@,
                *policy == ps[i as int],
                ls == policy.llms@,
                policy.name@.len() != 0,
                first_violation(ps) == first_violation(ps.skip(i as int)),
                first_llm_violation(ls) == first_llm_violation(ls.skip(j as int)),
            decreases ls.len() - j,
        {
            proof {
                assert(ls.skip(j as int)[0] == ls[j as int]);
            }
            match validate_llm(&policy.llms[j]) {
                Ok(()) => {},
                Err(e) => {
                    proof {
                        let v = Violation::LlmField {
                            llm: ls[j as int].name@,
                            field: llm_field_violation(ls[j as int])->0,
                        };
                        assert(first_llm_violation(ls.skip(j as int)) == Some(v));
                        assert(policy_violation(ps[i as int]) == Some(v));
                        assert(ps.skip(i as int)[0] == ps[i as int]);
                        assert(first_violation(ps.skip(i as int)) == Some(v));
                    }
                    return Err(e);
                },
            }
            proof {
                assert(ls.skip(j as int).drop_first() =~= ls.skip(j as int + 1));
            }
            j = j + 1;
        }
        proof {
            assert(ls.skip(j as int) =~= Seq::<Llm>::empty());
            assert(policy_violation(ps[i as int]) is None);
            assert(ps.skip(i as int).drop_first() =~= ps.skip(i as int + 1));
        }
        i = i + 1;
    }
    proof {
        assert(ps.skip(i as int) =~= Seq::<Policy>::empty());
    }
    Ok(())
}

} // verus!
