//! The labels under which requests and store queries are measured.

use vstd::prelude::*;

verus! {

/// The path label of a request: the route it matched, or, where it matched
/// none, the path it asked for.
pub open spec fn path_label_spec(matched_path: Option<Seq<char>>, uri_path: Seq<char>) -> Seq<
    char,
> {
    match matched_path {
        Some(route) => route,
        None => uri_path,
    }
}

/// The status label of a store query.
pub open spec fn query_status_spec(succeeded: bool) -> Seq<char> {
    if succeeded {
        "success"@
    } else {
        "failure"@
    }
}

/// The path label of a request: the route it matched, or, where it matched
/// none, the path it asked for.
pub fn path_label(matched_path: Option<&str>, uri_path: &str) -> (label: String)
    ensures
        label@ == path_label_spec(
            match matched_path {
                Some(route) => Some(route@),
                None => None,
            },
            uri_path@,
        ),
{
    match matched_path {
        Some(route) => route.to_owned(),
        None => uri_path.to_owned(),
    }
}

/// The status label of a store query: whether it succeeded or failed.
pub fn query_status(succeeded: bool) -> (label: &'static str)
    ensures
        label@ == query_status_spec(succeeded),
{
    if succeeded {
        "success"
    } else {
        "failure"
    }
}

} // verus!
