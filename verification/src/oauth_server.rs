use vstd::prelude::*;
use vstd::string::StringExecFns;

verus! {

/// The fixed loopback port the callback listener binds.
pub const OAUTH_CALLBACK_PORT: u16 = 1421;

/// The only path the listener answers with the confirmation page.
pub open spec fn callback_path() -> Seq<char> {
    "/oauth/callback"@
}

/// What `url`'s `form_urlencoded::parse` yields on a query string: its
/// key/value pairs, percent-decoded, in order. `Url::query_pairs`, which
/// the listener relies on, is defined as this function of the URL's query.
pub uninterp spec fn query_pairs_of(query: Seq<char>) -> Seq<(Seq<char>, Seq<char>)>;

/// Relies on url::form_urlencoded::parse: decodes a query string into its
/// key/value pairs.
#[verifier::external_body]
fn parse_query_pairs(query: &str) -> (r: Vec<(String, String)>)
    ensures
        r.deep_view() == query_pairs_of(query@),
{
    url::form_urlencoded::parse(query.as_bytes()).into_owned().collect()
}

/// The value of the first pair carrying `name`, if any.
pub open spec fn lookup_param(pairs: Seq<(Seq<char>, Seq<char>)>, name: Seq<char>) -> Option<
    Seq<char>,
>
    decreases pairs.len(),
{
    if pairs.len() == 0 {
        None
    } else if pairs[0].0 == name {
        Some(pairs[0].1)
    } else {
        lookup_param(pairs.drop_first(), name)
    }
}

proof fn lemma_lookup_param_index(pairs: Seq<(Seq<char>, Seq<char>)>, name: Seq<char>, i: int)
    requires
        0 <= i < pairs.len(),
        pairs[i].0 == name,
        forall|j: int| 0 <= j < i ==> pairs[j].0 != name,
    ensures
        lookup_param(pairs, name) == Some(pairs[i].1),
    decreases pairs.len(),
{
    if i > 0 {
        assert(pairs.drop_first()[i - 1] == pairs[i]);
        assert(forall|j: int| 0 <= j < i - 1 ==> pairs.drop_first()[j] == pairs[j + 1]);
        lemma_lookup_param_index(pairs.drop_first(), name, i - 1);
    }
}

proof fn lemma_lookup_param_none(pairs: Seq<(Seq<char>, Seq<char>)>, name: Seq<char>)
    requires
        forall|j: int| 0 <= j < pairs.len() ==> pairs[j].0 != name,
    ensures
        lookup_param(pairs, name) is None,
    decreases pairs.len(),
{
    if pairs.len() > 0 {
        assert(forall|j: int|
            0 <= j < pairs.drop_first().len() ==> pairs.drop_first()[j] == pairs[j + 1]);
        lemma_lookup_param_none(pairs.drop_first(), name);
    }
}

/// The first value stored under `name`, if any.
fn find_param(pairs: &Vec<(String, String)>, name: &String) -> (r: Option<String>)
    ensures
        match r {
            Some(v) => lookup_param(pairs.deep_view(), name@) == Some(v@),
            None => lookup_param(pairs.deep_view(), name@) is None,
        },
{
    let ghost ps = pairs.deep_view();
    let mut i: usize = 0;
    while i < pairs.len()
        invariant
            ps == pairs.deep_view(),
            i <= pairs@.len(),
            ps.len() == pairs@.len(),
            forall|j: int| 0 <= j < pairs@.len() ==> ps[j] == (pairs@[j].0@, pairs@[j].1@),
            forall|j: int| 0 <= j < i ==> ps[j].0 != name@,
        decreases pairs@.len() - i,
    {
        if pairs[i].0 == *name {
            proof {
                lemma_lookup_param_index(ps, name@, i as int);
            }
            return Some(pairs[i].1.clone());
        }
        i = i + 1;
    }
    proof {
        lemma_lookup_param_none(ps, name@);
    }
    None
}

/// What the listener decides for one inbound request: answer the
/// confirmation page and deliver `(code, state)` through the single-use
/// hand-off, or answer 404 and deliver nothing.
#[derive(Debug)]
pub enum CallbackOutcome {
    Deliver { code: String, state: String },
    Reject,
}

pub open spec fn option_str_view(q: Option<&str>) -> Option<Seq<char>> {
    match q {
        Some(s) => Some(s@),
        None => None,
    }
}

/// The pair a request delivers: present exactly when the path is the
/// callback path and the query carries both `code` and `state`.
pub open spec fn callback_delivery(path: Seq<char>, query: Option<Seq<char>>) -> Option<
    (Seq<char>, Seq<char>),
> {
    if path == callback_path() && query is Some {
        let pairs = query_pairs_of(query.unwrap());
        match (lookup_param(pairs, "code"@), lookup_param(pairs, "state"@)) {
            (Some(c), Some(s)) => Some((c, s)),
            _ => None,
        }
    } else {
        None
    }
}

/// Decide one inbound request. A request off the callback path, or with a
/// query missing `code` or `state`, is rejected and delivers no hand-off.
pub fn handle_request(path: &str, query: Option<&str>) -> (r: CallbackOutcome)
    ensures
        match r {
            CallbackOutcome::Deliver { code, state } => callback_delivery(
                path@,
                option_str_view(query),
            ) == Some((code@, state@)),
            CallbackOutcome::Reject => callback_delivery(path@, option_str_view(query)) is None,
        },
{
    let path_string = String::from_str(path);
    if !(path_string == String::from_str("/oauth/callback")) {
        return CallbackOutcome::Reject;
    }
    match query {
        None => CallbackOutcome::Reject,
        Some(q) => {
            let pairs = parse_query_pairs(q);
            let code = find_param(&pairs, &String::from_str("code"));
            let state = find_param(&pairs, &String::from_str("state"));
            match (code, state) {
                (Some(code), Some(state)) => CallbackOutcome::Deliver { code, state },
                _ => CallbackOutcome::Reject,
            }
        },
    }
}

} // verus!
