//! The typed configuration model: `RouterConfig`, `Policy`, `Llm`,
//! together with its lookup and redaction operations.

use vstd::prelude::*;
use crate::text::{trim_spec, trim_eq};

verus! {

/// One backend endpoint of a policy.
#[derive(Debug)]
pub struct Llm {
    pub name: String,
    pub api_base: String,
    pub api_key: String,
    pub model: String,
}

/// One named routing target: a group of backend endpoints.
#[derive(Debug)]
pub struct Policy {
    pub name: String,
    pub url: String,
    pub llms: Vec<Llm>,
}

/// The root of the configuration: an ordered sequence of policies.
#[derive(Debug)]
pub struct RouterConfig {
    pub policies: Vec<Policy>,
}

/// Field-for-field equality of two policies, with the endpoint list
/// compared by value.
pub open spec fn policy_eqv(a: Policy, b: Policy) -> bool {
    a.name == b.name && a.url == b.url && a.llms@ == b.llms@
}

/// Field-for-field equality of two configurations.
pub open spec fn config_eqv(a: RouterConfig, b: RouterConfig) -> bool {
    a.policies@.len() == b.policies@.len() && forall|i: int|
        0 <= i < a.policies@.len() ==> policy_eqv(#[trigger] a.policies@[i], b.policies@[i])
}

impl Clone for Llm {
    /// An independent copy, equal to the original field for field.
    fn clone(&self) -> (r: Self)
        ensures
            r == *self,
    {
        Llm {
            name: self.name.clone(),
            api_base: self.api_base.clone(),
            api_key: self.api_key.clone(),
            model: self.model.clone(),
        }
    }
}

impl Clone for Policy {
    /// An independent copy, equal to the original field for field.
    fn clone(&self) -> (r: Self)
        ensures
            policy_eqv(r, *self),
    {
        let mut llms: Vec<Llm> = Vec::new();
        let mut k: usize = 0;
        while k < self.llms.len()
            invariant
                0 <= k <= self.llms@.len(),
                llms@.len() == k,
                forall|t: int| 0 <= t < k ==> llms@[t] == self.llms@[t],
            decreases self.llms@.len() - k,
        {
            llms.push(self.llms[k].clone());
            k = k + 1;
        }
        proof {
            assert(llms@ =~= self.llms@);
        }
        Policy { name: self.name.clone(), url: self.url.clone(), llms }
    }
}

impl Clone for RouterConfig {
    /// An independent copy, equal to the original field for field.
    fn clone(&self) -> (r: Self)
        ensures
            config_eqv(r, *self),
    {
        let mut policies: Vec<Policy> = Vec::new();
        let mut k: usize = 0;
        while k < self.policies.len()
            invariant
                0 <= k <= self.policies@.len(),
                policies@.len() == k,
                forall|t: int| 0 <= t < k ==> policy_eqv(#[trigger] policies@[t], self.policies@[t]),
            decreases self.policies@.len() - k,
        {
            policies.push(self.policies[k].clone());
            k = k + 1;
        }
        RouterConfig { policies }
    }
}

/// The first policy whose trimmed name equals the trimmed query, if any.
pub open spec fn find_policy_spec(ps: Seq<Policy>, name: Seq<char>) -> Option<Policy>
    decreases ps.len(),
{
    if ps.len() == 0 {
        None
    } else if trim_spec(ps[0].name@) == trim_spec(name) {
        Some(ps[0])
    } else {
        find_policy_spec(ps.drop_first(), name)
    }
}

/// The first endpoint whose trimmed name equals the trimmed query, if any.
pub open spec fn find_llm_spec(ls: Seq<Llm>, name: Seq<char>) -> Option<Llm>
    decreases ls.len(),
{
    if ls.len() == 0 {
        None
    } else if trim_spec(ls[0].name@) == trim_spec(name) {
        Some(ls[0])
    } else {
        find_llm_spec(ls.drop_first(), name)
    }
}

/// The fixed marker that replaces secrets in a sanitized copy.
pub open spec fn redacted_marker() -> Seq<char> {
    "[REDACTED]"@
}

/// The redaction relation on endpoints: every field kept, except the
/// key, which is the fixed marker.
pub open spec fn sanitized_llm(s: Llm, l: Llm) -> bool {
    &&& s.name@ == l.name@
    &&& s.api_base@ == l.api_base@
    &&& s.model@ == l.model@
    &&& s.api_key@ == redacted_marker()
}

/// The redaction relation on policies: name and url kept, every
/// endpoint redacted in place.
pub open spec fn sanitized_policy(s: Policy, p: Policy) -> bool {
    &&& s.name@ == p.name@
    &&& s.url@ == p.url@
    &&& s.llms@.len() == p.llms@.len()
    &&& forall|j: int| 0 <= j < p.llms@.len() ==> sanitized_llm(#[trigger] s.llms@[j], p.llms@[j])
}

impl RouterConfig {
    /// The first policy whose trimmed name equals the trimmed query,
    /// as an independent copy; `None` when no policy matches.
    pub fn get_policy_by_name(&self, name: &str) -> (r: Option<Policy>)
        ensures
            match r {
                Some(p) => {
                    &&& find_policy_spec(self.policies@, name@) is Some
                    &&& policy_eqv(p, find_policy_spec(self.policies@, name@)->0)
                },
                None => find_policy_spec(self.policies@, name@) is None,
            },
    {
        let ghost ps = self.policies@;
        proof {
            assert(ps.skip(0) =~= ps);
        }
        let mut i: usize = 0;
        while i < self.policies.len()
            invariant
                0 <= i <= ps.len(),
                ps == self.policies@,
                find_policy_spec(ps, name@) == find_policy_spec(ps.skip(i as int), name@),
            decreases ps.len() - i,
        {
            proof {
                assert(ps.skip(i as int)[0] == ps[i as int]);
            }
            if trim_eq(self.policies[i].name.as_str(), name) {
                return Some(self.policies[i].clone());
            }
            proof {
                assert(ps.skip(i as int).drop_first() =~= ps.skip(i as int + 1));
            }
            i = i + 1;
        }
        proof {
            assert(ps.skip(i as int) =~= Seq::<Policy>::empty());
        }
        None
    }

    /// The policy at the given zero-based position, as an independent
    /// copy; `None` when the index is out of range.
    pub fn get_policy_by_index(&self, index: usize) -> (r: Option<Policy>)
        ensures
            match r {
                Some(p) => index < self.policies@.len() && policy_eqv(p, self.policies@[index as int]),
                None => index >= self.policies@.len(),
            },
    {
        if index < self.policies.len() {
            Some(self.policies[index].clone())
        } else {
            None
        }
    }

    /// A full structural copy in which every endpoint's `api_key` is
    /// the fixed marker and every other field is unchanged.
    pub fn sanitized(&self) -> (r: Self)
        ensures
            r.policies@.len() == self.policies@.len(),
            forall|i: int|
                0 <= i < self.policies@.len()
                    ==> sanitized_policy(#[trigger] r.policies@[i], self.policies@[i]),
    {
        let mut policies: Vec<Policy> = Vec::new();
        let mut i: usize = 0;
        while i < self.policies.len()
            invariant
                0 <= i <= self.policies@.len(),
                policies@.len() == i,
                forall|t: int|
                    0 <= t < i ==> sanitized_policy(#[trigger] policies@[t], self.policies@[t]),
            decreases self.policies@.len() - i,
        {
            let p = &self.policies[i];
            let mut llms: Vec<Llm> = Vec::new();
            let mut j: usize = 0;
            while j < p.llms.len()
                invariant
                    0 <= j <= p.llms@.len(),
                    llms@.len() == j,
                    forall|t: int| 0 <= t < j ==> sanitized_llm(#[trigger] llms@[t], p.llms@[t]),
                decreases p.llms@.len() - j,
            {
                let l = &p.llms[j];
                llms.push(Llm {
                    name: l.name.clone(),
                    api_base: l.api_base.clone(),
                    api_key: "[REDACTED]".to_owned(),
                    model: l.model.clone(),
                });
                j = j + 1;
            }
            policies.push(Policy { name: p.name.clone(), url: p.url.clone(), llms });
            i = i + 1;
        }
        RouterConfig { policies }
    }
}

impl Policy {
    /// The first endpoint whose trimmed name equals the trimmed query,
    /// as an independent copy; `None` when no endpoint matches.
    pub fn get_llm_by_name(&self, name: &str) -> (r: Option<Llm>)
        ensures
            match r {
                Some(l) => {
                    &&& find_llm_spec(self.llms@, name@) is Some
                    &&& l == find_llm_spec(self.llms@, name@)->0
                },
                None => find_llm_spec(self.llms@, name@) is None,
            },
    {
        let ghost ls = self.llms@;
        proof {
            assert(ls.skip(0) =~= ls);
        }
        let mut i: usize = 0;
        while i < self.llms.len()
            invariant
                0 <= i <= ls.len(),
                ls == self.llms@,
                find_llm_spec(ls, name@) == find_llm_spec(ls.skip(i as int), name@),
            decreases ls.len() - i,
        {
            proof {
                assert(ls.skip(i as int)[0] == ls[i as int]);
            }
            if trim_eq(self.llms[i].name.as_str(), name) {
                return Some(self.llms[i].clone());
            }
            proof {
                assert(ls.skip(i as int).drop_first() =~= ls.skip(i as int + 1));
            }
            i = i + 1;
        }
        proof {
            assert(ls.skip(i as int) =~= Seq::<Llm>::empty());
        }
        None
    }

    /// The endpoint at the given zero-based position, as an independent
    /// copy; `None` when the index is out of range.
    pub fn get_llm_by_index(&self, index: usize) -> (r: Option<Llm>)
        ensures
            match r {
                Some(l) => index < self.llms@.len() && l == self.llms@[index as int],
                None => index >= self.llms@.len(),
            },
    {
        if index < self.llms.len() {
            Some(self.llms[index].clone())
        } else {
            None
        }
    }

    /// The name of the endpoint at the given position; `None` when the
    /// index is out of range.
    pub fn get_llm_name_by_index(&self, index: usize) -> (r: Option<String>)
        ensures
            match r {
                Some(n) => index < self.llms@.len() && n@ == self.llms@[index as int].name@,
                None => index >= self.llms@.len(),
            },
    {
        if index < self.llms.len() {
            Some(self.llms[index].name.clone())
        } else {
            None
        }
    }
}

} // verus!
