//! Environment-variable substitution over raw configuration text.
//!
//! A placeholder is `${NAME}` where `NAME` is a non-empty run of
//! characters other than `'}'`. Substitution is a single left-to-right
//! pass: each placeholder whose name is bound in the environment
//! snapshot is replaced by the bound value, an unbound one stays as
//! written, and a replacement value is never rescanned.

use vstd::prelude::*;
use crate::environment::{EnvVars, env_lookup_spec};
use crate::model::RouterConfig;

verus! {

/// The position of the first `'}'` at or after `i`, or `s.len()` when
/// no such character follows.
pub open spec fn close_from(s: Seq<char>, i: int) -> int
    decreases s.len() - i,
{
    if i < 0 || i >= s.len() {
        s.len() as int
    } else if s[i] == '}' {
        i
    } else {
        close_from(s, i + 1)
    }
}

pub proof fn lemma_close_from_bounds(s: Seq<char>, i: int)
    requires
        0 <= i <= s.len(),
    ensures
        i <= close_from(s, i) <= s.len(),
        close_from(s, i) < s.len() ==> s[close_from(s, i)] == '}',
        forall|k: int| i <= k < close_from(s, i) ==> s[k] != '}',
    decreases s.len() - i,
{
    if i < s.len() && s[i] != '}' {
        lemma_close_from_bounds(s, i + 1);
    }
}

pub proof fn lemma_close_from_is(s: Seq<char>, i: int, j: int)
    requires
        0 <= i <= j <= s.len(),
        forall|k: int| i <= k < j ==> s[k] != '}',
        j < s.len() ==> s[j] == '}',
    ensures
        close_from(s, i) == j,
    decreases j - i,
{
    if i < j {
        lemma_close_from_is(s, i + 1, j);
    }
}

/// Whether the text begins with a substitutable placeholder: `"${"`,
/// then at least one character other than `'}'`, then `'}'`.
pub open spec fn has_placeholder_at_start(s: Seq<char>) -> bool {
    s.len() >= 2 && s[0] == '$' && s[1] == '{' && 2 < close_from(s, 2) < s.len()
}

/// The text after one left-to-right substitution pass over `s` with
/// the environment snapshot `env`.
pub open spec fn subst_spec(s: Seq<char>, env: Seq<(Seq<char>, Seq<char>)>) -> Seq<char>
    decreases s.len(),
    via subst_spec_decreases
{
    if s.len() == 0 {
        s
    } else if has_placeholder_at_start(s) {
        let j = close_from(s, 2);
        let rest = subst_spec(s.skip(j + 1), env);
        match env_lookup_spec(env, s.subrange(2, j)) {
            Some(v) => v + rest,
            None => s.take(j + 1) + rest,
        }
    } else {
        seq![s[0]] + subst_spec(s.drop_first(), env)
    }
}

#[via_fn]
proof fn subst_spec_decreases(s: Seq<char>, env: Seq<(Seq<char>, Seq<char>)>) {
    if s.len() > 0 && has_placeholder_at_start(s) {
        lemma_close_from_bounds(s, 2);
    }
}

/// Whether a substitutable placeholder occurs anywhere in the text.
pub open spec fn contains_placeholder(s: Seq<char>) -> bool
    decreases s.len(),
{
    if s.len() == 0 {
        false
    } else {
        has_placeholder_at_start(s) || contains_placeholder(s.drop_first())
    }
}

/// One observational event of a substitution pass, in the order the
/// placeholders stand in the text.
#[derive(Debug, PartialEq, Eq)]
pub enum SubstEvent {
    /// A `${name}` placeholder was found and `name` was bound: the
    /// placeholder was replaced.
    Substituted { name: String },
    /// A `${name}` placeholder was found but `name` was unbound: the
    /// placeholder was kept as written.
    Undefined { name: String },
}

impl View for SubstEvent {
    type V = (Seq<char>, bool);

    open spec fn view(&self) -> (Seq<char>, bool) {
        match *self {
            SubstEvent::Substituted { name } => (name@, true),
            SubstEvent::Undefined { name } => (name@, false),
        }
    }
}

/// The events of a substitution pass as pairs of placeholder name and
/// whether it was resolved.
pub open spec fn events_view(es: Seq<SubstEvent>) -> Seq<(Seq<char>, bool)> {
    es.map(|i: int, e: SubstEvent| e@)
}

/// The placeholders a substitution pass over `s` meets, in order, each
/// with whether `env` binds its name.
pub open spec fn subst_events_spec(
    s: Seq<char>,
    env: Seq<(Seq<char>, Seq<char>)>,
) -> Seq<(Seq<char>, bool)>
    decreases s.len(),
    via subst_events_spec_decreases
{
    if s.len() == 0 {
        Seq::empty()
    } else if has_placeholder_at_start(s) {
        let j = close_from(s, 2);
        let name = s.subrange(2, j);
        seq![(name, env_lookup_spec(env, name) is Some)] + subst_events_spec(s.skip(j + 1), env)
    } else {
        subst_events_spec(s.drop_first(), env)
    }
}

#[via_fn]
proof fn subst_events_spec_decreases(s: Seq<char>, env: Seq<(Seq<char>, Seq<char>)>) {
    if s.len() > 0 && has_placeholder_at_start(s) {
        lemma_close_from_bounds(s, 2);
    }
}

impl RouterConfig {
    /// Replaces every `${NAME}` placeholder in `content` by the value
    /// bound to `NAME` in `env`, leaving unbound placeholders as
    /// written, in one non-recursive left-to-right pass.
    pub fn expand_env_vars(content: &str, env: &EnvVars) -> (r: String)
        ensures
            r@ == subst_spec(content@, env@),
    {
        let (expanded, _) = Self::expand_env_vars_with_events(content, env);
        expanded
    }

    /// As `expand_env_vars`, and also reports one event per
    /// placeholder met, in text order, for diagnostic output.
    pub fn expand_env_vars_with_events(content: &str, env: &EnvVars) -> (r: (
        String,
        Vec<SubstEvent>,
    ))
        ensures
            r.0@ == subst_spec(content@, env@),
            events_view(r.1@) == subst_events_spec(content@, env@),
    {
        let ghost s = content@;
        let n = content.unicode_len();
        let mut out = String::new();
        let mut events: Vec<SubstEvent> = Vec::new();
        proof {
            assert(s.skip(0) =~= s);
            assert(events_view(events@) =~= Seq::<(Seq<char>, bool)>::empty());
        }
        let mut i: usize = 0;
        while i < n
            invariant
                0 <= i <= n,
                n == s.len(),
                s == content@,
                subst_spec(s, env@) == out@ + subst_spec(s.skip(i as int), env@),
                subst_events_spec(s, env@) == events_view(events@) + subst_events_spec(
                    s.skip(i as int),
                    env@,
                ),
            decreases n - i,
        {
            let ghost t = s.skip(i as int);
            proof {
                assert(t[0] == s[i as int]);
            }
            let c = content.get_char(i);
            if c == '$' && i + 1 < n && content.get_char(i + 1) == '{' {
                proof {
                    assert(t[1] == s[i as int + 1]);
                }
                let mut j: usize = i + 2;
                while j < n && content.get_char(j) != '}'
                    invariant
                        i + 2 <= j <= n,
                        n == s.len(),
                        s == content@,
                        forall|k: int| i + 2 <= k < j ==> s[k] != '}',
                    decreases n - j,
                {
                    j = j + 1;
                }
                proof {
                    assert(forall|k: int| 2 <= k < j - i ==> t[k] == s[k + i] && s[k + i] != '}');
                    if j < n {
                        assert(t[j - i] == s[j as int]);
                    }
                    lemma_close_from_is(t, 2, j - i);
                }
                if j < n && j > i + 2 {
                    let name = content.substring_char(i + 2, j);
                    proof {
                        assert(has_placeholder_at_start(t));
                        assert(name@ =~= t.subrange(2, j - i));
                        assert(t.skip(j - i + 1) =~= s.skip(j + 1));
                    }
                    let ghost events_before = events@;
                    match env.lookup(name) {
                        Some(v) => {
                            out.append(v.as_str());
                            events.push(SubstEvent::Substituted { name: name.to_owned() });
                        },
                        None => {
                            let lit = content.substring_char(i, j + 1);
                            proof {
                                assert(lit@ =~= t.take(j - i + 1));
                            }
                            out.append(lit);
                            events.push(SubstEvent::Undefined { name: name.to_owned() });
                        },
                    }
                    proof {
                        assert(events_view(events@) =~= events_view(events_before) + seq![
                            (name@, env_lookup_spec(env@, name@) is Some),
                        ]);
                    }
                    i = j + 1;
                } else {
                    let one = content.substring_char(i, i + 1);
                    proof {
                        assert(!has_placeholder_at_start(t));
                        assert(one@ =~= seq![t[0]]);
                        assert(t.drop_first() =~= s.skip(i as int + 1));
                    }
                    out.append(one);
                    i = i + 1;
                }
            } else {
                let one = content.substring_char(i, i + 1);
                proof {
                    if i + 1 < n {
                        assert(t[1] == s[i as int + 1]);
                    }
                    assert(!has_placeholder_at_start(t));
                    assert(one@ =~= seq![t[0]]);
                    assert(t.drop_first() =~= s.skip(i as int + 1));
                }
                out.append(one);
                i = i + 1;
            }
        }
        proof {
            assert(s.skip(n as int) =~= Seq::<char>::empty());
            assert(events_view(events@) + subst_events_spec(Seq::<char>::empty(), env@)
                =~= events_view(events@));
        }
        (out, events)
    }
}

/// Text that holds no placeholder comes out of substitution unchanged,
/// whatever the environment.
pub proof fn lemma_subst_identity(s: Seq<char>, env: Seq<(Seq<char>, Seq<char>)>)
    requires
        !contains_placeholder(s),
    ensures
        subst_spec(s, env) == s,
    decreases s.len(),
{
    if s.len() > 0 {
        lemma_subst_identity(s.drop_first(), env);
        assert(subst_spec(s, env) =~= s);
    }
}

/// Substitution is a pure function of the text and the environment
/// snapshot: any two results for the same arguments are equal.
pub proof fn lemma_subst_deterministic(
    s: Seq<char>,
    env: Seq<(Seq<char>, Seq<char>)>,
    r1: Seq<char>,
    r2: Seq<char>,
)
    requires
        r1 == subst_spec(s, env),
        r2 == subst_spec(s, env),
    ensures
        r1 == r2,
{
}

/// The literal text of a placeholder for `name`.
pub open spec fn placeholder_text(name: Seq<char>) -> Seq<char> {
    seq!['$', '{'] + name + seq!['}']
}

/// A placeholder whose name is not bound in the environment comes out
/// of substitution exactly as it went in.
pub proof fn lemma_unresolved_placeholder_preserved(
    name: Seq<char>,
    env: Seq<(Seq<char>, Seq<char>)>,
)
    requires
        name.len() > 0,
        forall|k: int| 0 <= k < name.len() ==> name[k] != '}',
        env_lookup_spec(env, name) is None,
    ensures
        subst_spec(placeholder_text(name), env) == placeholder_text(name),
{
    let s = placeholder_text(name);
    assert(s.len() == name.len() + 3);
    assert(forall|k: int| 2 <= k < s.len() - 1 ==> s[k] == name[k - 2] && s[k] != '}');
    assert(s[s.len() - 1] == '}');
    lemma_close_from_is(s, 2, s.len() - 1);
    assert(has_placeholder_at_start(s));
    assert(s.subrange(2, s.len() - 1) =~= name);
    assert(env_lookup_spec(env, s.subrange(2, s.len() - 1)) is None);
    let e = s.skip(s.len() as int);
    assert(e =~= Seq::<char>::empty());
    assert(subst_spec(e, env) == e);
    assert(subst_spec(s, env) == s.take(s.len() as int) + subst_spec(e, env));
    assert(s.take(s.len() as int) + e =~= s);
}

} // verus!
