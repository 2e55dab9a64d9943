//! The path-and-query part of request URIs.
use vstd::prelude::*;
use vstd::string::*;

verus! {

/// The view of an optional string slice.
pub open spec fn opt_str(s: Option<&str>) -> Option<Seq<char>> {
    match s {
        Some(t) => Some(t@),
        None => None,
    }
}

/// The query string `old` with `new` appended after an ampersand, or `new`
/// alone where there was none.
pub open spec fn joined_query(old: Option<Seq<char>>, new: Seq<char>) -> Seq<char> {
    match old {
        Some(q) => q + "&"@ + new,
        None => new,
    }
}

/// The path-and-query after `new_query` was appended to the query of a URI
/// whose path is `path` and query `query`. `None` where `new_query` is empty:
/// the URI stays as it is. Without a path, `new_query` becomes the whole
/// path-and-query.
pub fn join_query(path: Option<&str>, query: Option<&str>, new_query: &str) -> (r: Option<String>)
    ensures
        new_query@.len() == 0 ==> r is None,
        new_query@.len() > 0 ==> (r matches Some(s) && s@ == match path {
            Some(p) => p@ + "?"@ + joined_query(opt_str(query), new_query@),
            None => new_query@,
        }),
{
    if new_query.is_empty() {
        return None;
    }
    let mut out = String::new();
    match path {
        Some(p) => {
            out.append(p);
            out.append("?");
            match query {
                Some(q) => {
                    out.append(q);
                    out.append("&");
                },
                None => {},
            }
            out.append(new_query);
        },
        None => out.append(new_query),
    }
    Some(out)
}

/// The path-and-query made of a new `path` and the query that the URI had.
pub fn join_path(path: &str, query: Option<&str>) -> (r: String)
    ensures
        r@ == path@ + match query {
            Some(q) => "?"@ + q@,
            None => Seq::empty(),
        },
{
    let mut out = String::new();
    out.append(path);
    match query {
        Some(q) => {
            out.append("?");
            out.append(q);
        },
        None => {},
    }
    out
}

} // verus!
