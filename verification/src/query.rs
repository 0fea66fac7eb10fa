//! Query-string parameter lookup.
//!
//! The query string travels upstream verbatim; the gateway itself reads it in
//! one place only, to label the search metric with the request's language.
//! The grammar is the usual one: parameters separated by `&`, a parameter's
//! key standing before its first `=` and its value between the first and the
//! second. A parameter without `=` is ignored, and nothing is
//! percent-decoded.

use vstd::prelude::*;

use crate::bytes::{copy_range, find_byte_in, range_eq};
use vstd::string::StrSliceExecFns;
use vstd::string::StringSliceAdditionalSpecFns;

verus! {

/// The parameter separator `&`.
pub const AMPERSAND: u8 = 38;

/// The key/value separator `=`.
pub const EQUALS_SIGN: u8 = 61;

/// The value a parameter segment gives for `key`: the bytes between the
/// segment's first and second `=`, provided the bytes before the first `=`
/// equal `key` exactly. A segment without `=` never matches.
pub open spec fn seg_value(seg: Seq<u8>, key: Seq<u8>) -> Option<Seq<u8>> {
    match crate::bytes::find_byte(seg, EQUALS_SIGN) {
        None => None,
        Some(e) => if seg.subrange(0, e as int) == key {
            let tail = seg.subrange(e as int + 1, seg.len() as int);
            let vend = match crate::bytes::find_byte(tail, EQUALS_SIGN) {
                Some(j) => j as int,
                None => tail.len() as int,
            };
            Some(tail.subrange(0, vend))
        } else {
            None
        },
    }
}

/// The value of the first parameter of `q` whose key is exactly `key`, or
/// `None` when no parameter matches.
pub open spec fn spec_lookup(q: Seq<u8>, key: Seq<u8>) -> Option<Seq<u8>>
    decreases q.len(),
{
    let end = match crate::bytes::find_byte(q, AMPERSAND) {
        Some(i) => i as int,
        None => q.len() as int,
    };
    let seg = q.subrange(0, end);
    match seg_value(seg, key) {
        Some(v) => Some(v),
        None => if end < q.len() {
            spec_lookup(q.subrange(end + 1, q.len() as int), key)
        } else {
            None
        },
    }
}

/// Finds the value of the first parameter of `query` whose key is `key`.
pub fn lookup_param(query: &Vec<u8>, key: &Vec<u8>) -> (r: Option<Vec<u8>>)
    ensures
        r matches Some(v) ==> spec_lookup(query@, key@) == Some(v@),
        r is None ==> spec_lookup(query@, key@) is None,
{
    let n = query.len();
    let mut start: usize = 0;
    assert(query@.subrange(0, n as int) =~= query@);
    loop
        invariant
            start <= n,
            n == query@.len(),
            spec_lookup(query@, key@) == spec_lookup(
                query@.subrange(start as int, n as int),
                key@,
            ),
        decreases n - start,
    {
        let ghost suffix = query@.subrange(start as int, n as int);
        let end = match find_byte_in(query, AMPERSAND, start, n) {
            Some(i) => i,
            None => n,
        };
        assert(start <= end <= n);
        let ghost seg = suffix.subrange(0, end - start);
        assert(seg =~= query@.subrange(start as int, end as int));
        let mut matched: Option<Vec<u8>> = None;
        match find_byte_in(query, EQUALS_SIGN, start, end) {
            None => {
                assert(crate::bytes::find_byte(seg, EQUALS_SIGN) is None);
                assert(seg_value(seg, key@) is None);
            },
            Some(e) => {
                assert(crate::bytes::find_byte(seg, EQUALS_SIGN) == Some((e - start) as nat));
                assert(seg.subrange(0, e - start) =~= query@.subrange(start as int, e as int));
                if range_eq(query, start, e, key) {
                    let ghost tail = seg.subrange(e - start + 1, seg.len() as int);
                    assert(tail =~= query@.subrange(e + 1, end as int));
                    let vend = match find_byte_in(query, EQUALS_SIGN, e + 1, end) {
                        Some(j) => j,
                        None => end,
                    };
                    let value = copy_range(query, e + 1, vend);
                    assert(value@ =~= tail.subrange(0, vend - (e + 1)));
                    assert(seg_value(seg, key@) == Some(value@));
                    matched = Some(value);
                } else {
                    assert(seg_value(seg, key@) is None);
                }
            },
        }
        match matched {
            Some(v) => {
                assert(spec_lookup(suffix, key@) == Some(v@));
                return Some(v);
            },
            None => {
                assert(seg_value(seg, key@) is None);
                if end < n {
                    assert(suffix.subrange(end - start + 1, suffix.len() as int)
                        =~= query@.subrange(end + 1, n as int));
                    assert(spec_lookup(suffix, key@) == spec_lookup(
                        query@.subrange(end + 1, n as int),
                        key@,
                    ));
                    start = end + 1;
                } else {
                    assert(spec_lookup(suffix, key@) is None);
                    return None;
                }
            },
        }
    }
}

/// The metric label of a query string: the `language` parameter's value, or
/// the literal `unknown` when the parameter is absent.
pub open spec fn spec_label(q: Seq<u8>) -> Seq<u8> {
    match spec_lookup(q, ("language").spec_bytes()) {
        Some(v) => v,
        None => ("unknown").spec_bytes(),
    }
}

/// Extracts the metric label from a query string, substituting `unknown`
/// when no `language` parameter is present.
pub fn extract_label(query: &Vec<u8>) -> (r: Vec<u8>)
    ensures
        r@ == spec_label(query@),
{
    let key = ("language").as_bytes_vec();
    match lookup_param(query, &key) {
        Some(v) => v,
        None => ("unknown").as_bytes_vec(),
    }
}

} // verus!
