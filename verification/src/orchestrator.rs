//! The five phases of one invocation: fan-in of the resolved parameters,
//! the dependency check and refresh plan, the write-back plan, and the
//! summary. The network calls themselves happen outside the library; each
//! phase function here takes their outcomes as plain values.
use vstd::prelude::*;
use vstd::string::StringExecFns;
use crate::errors::RefreshError;
use crate::params::ParameterMap;
use crate::params::distinct_keys;
use crate::params::lemma_map_of_permutation;
use crate::params::map_of;
use crate::request::EventBridgePayload;
use crate::request::Response;
use crate::secrets::Secret;
use crate::token::Token;
use crate::token::spec_token_field;

verus! {

/// What one parameter resolution came back with.
#[derive(Debug, Clone)]
pub enum ResolveOutcome {
    /// The store returned this value for the key.
    Resolved(String),
    /// The store has no value under the key.
    NotFound,
    /// The store could not be reached.
    TransportFailure,
}

/// Every resolution succeeded.
pub open spec fn all_resolved(s: Seq<(String, ResolveOutcome)>) -> bool {
    forall|i: int| 0 <= i < s.len() ==> s[i].1 is Resolved
}

/// The key/value pairs of a fully successful resolution phase.
pub open spec fn resolved_pairs(s: Seq<(String, ResolveOutcome)>) -> Seq<(Seq<char>, Seq<char>)> {
    s.map_values(|p: (String, ResolveOutcome)| (p.0@, p.1->Resolved_0@))
}

/// The error that reports the first failed resolution.
pub open spec fn failure_reported(s: Seq<(String, ResolveOutcome)>, e: RefreshError) -> bool {
    exists|i: int|
        0 <= i < s.len() && !(s[i].1 is Resolved) && (forall|j: int|
            0 <= j < i ==> s[j].1 is Resolved) && match s[i].1 {
            ResolveOutcome::Resolved(_) => false,
            ResolveOutcome::NotFound => e matches RefreshError::NotFound(k) && k@ == s[i].0@,
            ResolveOutcome::TransportFailure => e is Transport,
        }
}

/// Fan the resolution outcomes into the shared parameter map. Every
/// resolution must have succeeded; otherwise the first failure, in input
/// order, aborts the invocation with `NotFound` or `Transport` and nothing
/// later is looked at.
pub fn ingest_resolutions(outcomes: &Vec<(String, ResolveOutcome)>) -> (r: Result<
    ParameterMap,
    RefreshError,
>)
    ensures
        r is Ok <==> all_resolved(outcomes@),
        r matches Ok(m) ==> m.wf() && m@ == map_of(resolved_pairs(outcomes@)),
        r matches Err(e) ==> failure_reported(outcomes@, e),
{
    let mut m = ParameterMap::new();
    let n = outcomes.len();
    let mut i: usize = 0;
    proof {
        assert(resolved_pairs(outcomes@.take(0)) =~= Seq::<(Seq<char>, Seq<char>)>::empty());
    }
    while i < n
        invariant
            i <= n,
            n == outcomes@.len(),
            m.wf(),
            forall|j: int| 0 <= j < i ==> outcomes@[j].1 is Resolved,
            m@ == map_of(resolved_pairs(outcomes@.take(i as int))),
        decreases n - i,
    {
        match &outcomes[i].1 {
            ResolveOutcome::Resolved(value) => {
                let ghost pre = resolved_pairs(outcomes@.take(i as int));
                m.insert(outcomes[i].0.clone(), value.clone());
                proof {
                    let post = resolved_pairs(outcomes@.take(i + 1 as int));
                    assert(post =~= pre.push((outcomes@[i as int].0@, value@)));
                    assert(post.drop_last() =~= pre);
                    assert(m@ == map_of(post));
                }
            },
            ResolveOutcome::NotFound => {
                return Err(RefreshError::NotFound(outcomes[i].0.clone()));
            },
            ResolveOutcome::TransportFailure => {
                return Err(RefreshError::Transport);
            },
        }
        i += 1;
    }
    proof {
        assert(outcomes@.take(n as int) =~= outcomes@);
    }
    Ok(m)
}

/// One planned secret write: the store endpoint, the field being written
/// with its refreshed value, and the constant write context.
#[derive(Debug, Clone, PartialEq)]
pub struct WriteCall {
    pub endpoint: String,
    pub secret_key: String,
    pub new_value: String,
    pub secret_path: String,
    pub environment: String,
    pub workspace: String,
    pub bearer: String,
}

/// The plain view of one planned write.
pub open spec fn call_view(c: WriteCall) -> (
    Seq<char>,
    Seq<char>,
    Seq<char>,
    Seq<char>,
    Seq<char>,
    Seq<char>,
    Seq<char>,
) {
    (c.endpoint@, c.secret_key@, c.new_value@, c.secret_path@, c.environment@, c.workspace@, c.bearer@)
}

/// The write that one field name plans to, given the write context and the
/// refreshed token set.
pub open spec fn spec_write_view(
    endpoint: Seq<char>,
    path: Seq<char>,
    environment: Seq<char>,
    workspace: Seq<char>,
    bearer: Seq<char>,
    t: Token,
    name: Seq<char>,
) -> (Seq<char>, Seq<char>, Seq<char>, Seq<char>, Seq<char>, Seq<char>, Seq<char>) {
    (endpoint, name, spec_token_field(t, name).unwrap(), path, environment, workspace, bearer)
}

/// The writes that a list of field names plans to, in list order.
pub open spec fn write_views(
    endpoint: Seq<char>,
    path: Seq<char>,
    environment: Seq<char>,
    workspace: Seq<char>,
    bearer: Seq<char>,
    t: Token,
    names: Seq<Seq<char>>,
) -> Seq<(Seq<char>, Seq<char>, Seq<char>, Seq<char>, Seq<char>, Seq<char>, Seq<char>)> {
    names.map_values(
        |name: Seq<char>| spec_write_view(endpoint, path, environment, workspace, bearer, t, name),
    )
}

/// The error that reports the first field name with no token field.
pub open spec fn missing_field_reported(t: Token, names: Seq<Seq<char>>, e: RefreshError) -> bool {
    exists|i: int|
        0 <= i < names.len() && spec_token_field(t, names[i]) is None && (forall|j: int|
            0 <= j < i ==> spec_token_field(t, names[j]) is Some) && (e matches
        RefreshError::MissingField(k) && k@ == names[i])
}

/// The views of a request's update paths.
pub open spec fn path_views(paths: Seq<String>) -> Seq<Seq<char>> {
    paths.map_values(|p: String| p@)
}

/// Plan the write-back fan-out. Each update path is matched to a token
/// field case-insensitively; the environment, workspace and write
/// credential are read from the parameter map at their fixed keys. A
/// missing context key is a configuration error, a path with no matching
/// token field is a `MissingField` error, and either aborts before any
/// write is planned.
pub fn plan_writes(request: &EventBridgePayload, params: &ParameterMap, token: &Token) -> (r:
    Result<Vec<WriteCall>, RefreshError>)
    requires
        params.wf(),
    ensures
        r is Ok <==> (params@.contains_key("secrets-environment"@) && params@.contains_key(
            "secrets-workspace"@,
        ) && params@.contains_key("secrets-rw"@) && (forall|j: int|
            0 <= j < request.update_paths@.len() ==> spec_token_field(
                *token,
                request.update_paths@[j]@,
            ) is Some)),
        r matches Ok(calls) ==> calls@.map_values(|c: WriteCall| call_view(c)) == write_views(
            request.secrets_endpoint@,
            request.secrets_path@,
            params@["secrets-environment"@],
            params@["secrets-workspace"@],
            params@["secrets-rw"@],
            *token,
            path_views(request.update_paths@),
        ),
        !params@.contains_key("secrets-environment"@) ==> (r matches Err(e) && e matches
            RefreshError::Config(k) && k@ == "secrets-environment"@),
        params@.contains_key("secrets-environment"@) && !params@.contains_key(
            "secrets-workspace"@,
        ) ==> (r matches Err(e) && e matches RefreshError::Config(k) && k@
            == "secrets-workspace"@),
        params@.contains_key("secrets-environment"@) && params@.contains_key("secrets-workspace"@)
            && !params@.contains_key("secrets-rw"@) ==> (r matches Err(e) && e matches
            RefreshError::Config(k) && k@ == "secrets-rw"@),
        params@.contains_key("secrets-environment"@) && params@.contains_key("secrets-workspace"@)
            && params@.contains_key("secrets-rw"@) ==> (r matches Err(e)
            ==> missing_field_reported(*token, path_views(request.update_paths@), e)),
{
    let environment = match params.get("secrets-environment") {
        Some(v) => v.clone(),
        None => {
            return Err(RefreshError::Config(String::from_str("secrets-environment")));
        },
    };
    let workspace = match params.get("secrets-workspace") {
        Some(v) => v.clone(),
        None => {
            return Err(RefreshError::Config(String::from_str("secrets-workspace")));
        },
    };
    let bearer = match params.get("secrets-rw") {
        Some(v) => v.clone(),
        None => {
            return Err(RefreshError::Config(String::from_str("secrets-rw")));
        },
    };
    let mut calls: Vec<WriteCall> = Vec::new();
    let n = request.update_paths.len();
    let mut i: usize = 0;
    while i < n
        invariant
            i <= n,
            n == request.update_paths@.len(),
            calls@.len() == i,
            params@.contains_key("secrets-environment"@),
            params@.contains_key("secrets-workspace"@),
            params@.contains_key("secrets-rw"@),
            environment@ == params@["secrets-environment"@],
            workspace@ == params@["secrets-workspace"@],
            bearer@ == params@["secrets-rw"@],
            forall|j: int|
                0 <= j < i ==> spec_token_field(*token, request.update_paths@[j]@) is Some,
            forall|j: int|
                0 <= j < i ==> call_view(calls@[j]) == spec_write_view(
                    request.secrets_endpoint@,
                    request.secrets_path@,
                    params@["secrets-environment"@],
                    params@["secrets-workspace"@],
                    params@["secrets-rw"@],
                    *token,
                    request.update_paths@[j]@,
                ),
        decreases n - i,
    {
        let name = &request.update_paths[i];
        let new_value = match token.field_value(name.as_str()) {
            Some(v) => v,
            None => {
                let e = RefreshError::MissingField(name.clone());
                proof {
                    let paths = path_views(request.update_paths@);
                    assert(paths[i as int] == request.update_paths@[i as int]@);
                    assert(spec_token_field(*token, paths[i as int]) is None);
                    assert(forall|j: int|
                        0 <= j < i ==> spec_token_field(*token, paths[j]) is Some);
                    assert(missing_field_reported(*token, paths, e));
                }
                return Err(e);
            },
        };
        calls.push(
            WriteCall {
                endpoint: request.secrets_endpoint.clone(),
                secret_key: name.clone(),
                new_value,
                secret_path: request.secrets_path.clone(),
                environment: environment.clone(),
                workspace: workspace.clone(),
                bearer: bearer.clone(),
            },
        );
        i += 1;
    }
    proof {
        assert(calls@.map_values(|c: WriteCall| call_view(c)) =~= write_views(
            request.secrets_endpoint@,
            request.secrets_path@,
            params@["secrets-environment"@],
            params@["secrets-workspace"@],
            params@["secrets-rw"@],
            *token,
            path_views(request.update_paths@),
        ));
    }
    Ok(calls)
}

/// Summarise the invocation: the request id is carried through, and the
/// invocation counts as successful exactly when every write succeeded.
/// The original behaviour discarded write failures; aggregating them into
/// the success flag is the documented improvement.
pub fn summarize(req_id: String, write_results: &Vec<Result<Secret, RefreshError>>) -> (r:
    Response)
    ensures
        r.req_id@ == req_id@,
        r.successful <==> (forall|i: int|
            0 <= i < write_results@.len() ==> write_results@[i] is Ok),
{
    let mut successful = true;
    let n = write_results.len();
    let mut i: usize = 0;
    while i < n
        invariant
            i <= n,
            n == write_results@.len(),
            successful <==> (forall|j: int| 0 <= j < i ==> write_results@[j] is Ok),
        decreases n - i,
    {
        if write_results[i].is_err() {
            successful = false;
        }
        i += 1;
    }
    Response { req_id, successful }
}

/// Permuting a resolution list permutes its key/value pairs.
proof fn lemma_resolved_pairs_permutation(
    s1: Seq<(String, ResolveOutcome)>,
    s2: Seq<(String, ResolveOutcome)>,
)
    requires
        s1.to_multiset() == s2.to_multiset(),
    ensures
        resolved_pairs(s1).to_multiset() == resolved_pairs(s2).to_multiset(),
    decreases s1.len(),
{
    broadcast use vstd::seq_lib::group_to_multiset_ensures;
    broadcast use vstd::multiset::group_multiset_axioms;

    let m1 = resolved_pairs(s1);
    let m2 = resolved_pairs(s2);
    if s1.len() == 0 {
        assert(s2.to_multiset().len() == 0);
        assert(s2.len() == 0);
        assert(m1 =~= Seq::<(Seq<char>, Seq<char>)>::empty());
        assert(m2 =~= Seq::<(Seq<char>, Seq<char>)>::empty());
        assert(m1.to_multiset() =~= m2.to_multiset());
    } else {
        let last = s1.len() - 1;
        let x = s1[last];
        assert(s1.contains(x));
        assert(s2.to_multiset().count(x) > 0);
        assert(s2.contains(x));
        let j = choose|j: int| 0 <= j < s2.len() && s2[j] == x;
        let rest1 = s1.remove(last);
        let rest2 = s2.remove(j);
        assert(rest1.to_multiset() =~= s1.to_multiset().remove(x));
        assert(rest2.to_multiset() =~= s2.to_multiset().remove(x));
        lemma_resolved_pairs_permutation(rest1, rest2);
        let r1 = resolved_pairs(rest1);
        let r2 = resolved_pairs(rest2);
        let fx = (x.0@, x.1->Resolved_0@);
        assert(m1.remove(last) =~= r1);
        assert(m2.remove(j) =~= r2);
        assert(m1.remove(last).to_multiset() =~= m1.to_multiset().remove(m1[last]));
        assert(m2.remove(j).to_multiset() =~= m2.to_multiset().remove(m2[j]));
        assert(m1[last] == fx);
        assert(m2[j] == fx);
        assert(m1.contains(fx));
        assert(m1.to_multiset().count(fx) > 0);
        assert(m2.contains(fx));
        assert(m2.to_multiset().count(fx) > 0);
        assert forall|y: (Seq<char>, Seq<char>)|
            m1.to_multiset().count(y) == m2.to_multiset().count(y) by {
            if y == fx {
                assert(m1.to_multiset().remove(fx).count(fx) + 1 == m1.to_multiset().count(fx));
                assert(m2.to_multiset().remove(fx).count(fx) + 1 == m2.to_multiset().count(fx));
                assert(r1.to_multiset().count(fx) == r2.to_multiset().count(fx));
            } else {
                assert(m1.to_multiset().remove(fx).count(y) == m1.to_multiset().count(y));
                assert(m2.to_multiset().remove(fx).count(y) == m2.to_multiset().count(y));
                assert(r1.to_multiset().count(y) == r2.to_multiset().count(y));
            }
        }
        assert(m1.to_multiset() =~= m2.to_multiset());
    }
}

/// Permuting the resolution outcomes leaves the resulting parameter map
/// unchanged, provided the keys are distinct: two orderings of the same
/// resolutions fan in to the same map.
pub proof fn lemma_resolution_order_independent(
    s1: Seq<(String, ResolveOutcome)>,
    s2: Seq<(String, ResolveOutcome)>,
)
    requires
        s1.to_multiset() == s2.to_multiset(),
        distinct_keys(resolved_pairs(s1)),
    ensures
        map_of(resolved_pairs(s1)) == map_of(resolved_pairs(s2)),
{
    lemma_resolved_pairs_permutation(s1, s2);
    lemma_map_of_permutation(resolved_pairs(s1), resolved_pairs(s2));
}

/// Permuting the update paths permutes the planned writes: the plans drawn
/// from two orderings of the same field names are the same multiset of
/// write calls.
pub proof fn lemma_write_plan_order_independent(
    endpoint: Seq<char>,
    path: Seq<char>,
    environment: Seq<char>,
    workspace: Seq<char>,
    bearer: Seq<char>,
    t: Token,
    names1: Seq<Seq<char>>,
    names2: Seq<Seq<char>>,
)
    requires
        names1.to_multiset() == names2.to_multiset(),
    ensures
        write_views(endpoint, path, environment, workspace, bearer, t, names1).to_multiset()
            == write_views(endpoint, path, environment, workspace, bearer, t, names2).to_multiset(),
    decreases names1.len(),
{
    broadcast use vstd::seq_lib::group_to_multiset_ensures;
    broadcast use vstd::multiset::group_multiset_axioms;

    let m1 = write_views(endpoint, path, environment, workspace, bearer, t, names1);
    let m2 = write_views(endpoint, path, environment, workspace, bearer, t, names2);
    if names1.len() == 0 {
        assert(names2.to_multiset().len() == 0);
        assert(names2.len() == 0);
        assert(m1 =~= Seq::<
            (Seq<char>, Seq<char>, Seq<char>, Seq<char>, Seq<char>, Seq<char>, Seq<char>),
        >::empty());
        assert(m2 =~= Seq::<
            (Seq<char>, Seq<char>, Seq<char>, Seq<char>, Seq<char>, Seq<char>, Seq<char>),
        >::empty());
        assert(m1.to_multiset() =~= m2.to_multiset());
    } else {
        let last = names1.len() - 1;
        let x = names1[last];
        assert(names1.contains(x));
        assert(names2.to_multiset().count(x) > 0);
        assert(names2.contains(x));
        let j = choose|j: int| 0 <= j < names2.len() && names2[j] == x;
        let rest1 = names1.remove(last);
        let rest2 = names2.remove(j);
        assert(rest1.to_multiset() =~= names1.to_multiset().remove(x));
        assert(rest2.to_multiset() =~= names2.to_multiset().remove(x));
        lemma_write_plan_order_independent(
            endpoint,
            path,
            environment,
            workspace,
            bearer,
            t,
            rest1,
            rest2,
        );
        let r1 = write_views(endpoint, path, environment, workspace, bearer, t, rest1);
        let r2 = write_views(endpoint, path, environment, workspace, bearer, t, rest2);
        let fx = spec_write_view(endpoint, path, environment, workspace, bearer, t, x);
        assert(m1.remove(last) =~= r1);
        assert(m2.remove(j) =~= r2);
        assert(m1.remove(last).to_multiset() =~= m1.to_multiset().remove(m1[last]));
        assert(m2.remove(j).to_multiset() =~= m2.to_multiset().remove(m2[j]));
        assert(m1[last] == fx);
        assert(m2[j] == fx);
        assert(m1.contains(fx));
        assert(m1.to_multiset().count(fx) > 0);
        assert(m2.contains(fx));
        assert(m2.to_multiset().count(fx) > 0);
        assert forall|y: (Seq<char>, Seq<char>, Seq<char>, Seq<char>, Seq<char>, Seq<char>, Seq<char>)|
            m1.to_multiset().count(y) == m2.to_multiset().count(y) by {
            if y == fx {
                assert(m1.to_multiset().remove(fx).count(fx) + 1 == m1.to_multiset().count(fx));
                assert(m2.to_multiset().remove(fx).count(fx) + 1 == m2.to_multiset().count(fx));
                assert(r1.to_multiset().count(fx) == r2.to_multiset().count(fx));
            } else {
                assert(m1.to_multiset().remove(fx).count(y) == m1.to_multiset().count(y));
                assert(m2.to_multiset().remove(fx).count(y) == m2.to_multiset().count(y));
                assert(r1.to_multiset().count(y) == r2.to_multiset().count(y));
            }
        }
        assert(m1.to_multiset() =~= m2.to_multiset());
    }
}

} // verus!
