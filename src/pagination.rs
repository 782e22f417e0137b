//! Pagination of the question list, read from the query parameters
//! `limit` and `offset`.

use vstd::prelude::*;
use vstd::utf8::encode_utf8;
use crate::claims::bytes_equal;
use crate::error::Error;

verus! {

#[derive(Debug, Clone, Copy, PartialEq, Eq)]
pub struct Pagination {
    /// How many questions to return at most.
    pub limit: Option<i32>,
    /// How many questions to skip.
    pub offset: i32,
}

/// What `str::parse::<i32>` gives for a text.
pub uninterp spec fn parsed_i32(text: Seq<char>) -> Option<i32>;

/// Relies on `str::parse::<i32>`: an optional sign and decimal digits, in range.
#[verifier::external_body]
fn parse_i32(text: &str) -> (r: Option<i32>)
    ensures
        r == parsed_i32(text@),
{
    text.parse::<i32>().ok()
}

/// `limit`
pub open spec fn limit_key() -> Seq<u8> {
    seq![108u8, 105, 109, 105, 116]
}

/// `offset`
pub open spec fn offset_key() -> Seq<u8> {
    seq![111u8, 102, 102, 115, 101, 116]
}

/// The value of the first parameter named `key`, if any.
pub open spec fn param_value(params: Seq<(String, String)>, key: Seq<u8>) -> Option<Seq<char>>
    decreases params.len(),
{
    if params.len() == 0 {
        None
    } else if encode_utf8(params[0].0@) == key {
        Some(params[0].1@)
    } else {
        param_value(params.drop_first(), key)
    }
}

/// The pagination that the parameters ask for: both `limit` and `offset`
/// must be present, and both must parse as numbers.
pub open spec fn pagination_of(params: Seq<(String, String)>) -> Result<Pagination, Error> {
    match (param_value(params, limit_key()), param_value(params, offset_key())) {
        (Some(l), Some(o)) => match (parsed_i32(l), parsed_i32(o)) {
            (Some(limit), Some(offset)) => Ok(Pagination { limit: Some(limit), offset }),
            _ => Err(Error::ParseError),
        },
        _ => Err(Error::MissingParameters),
    }
}

fn find_param<'a>(params: &'a Vec<(String, String)>, key: &[u8]) -> (r: Option<&'a String>)
    ensures
        match r {
            Some(v) => param_value(params@, key@) == Some(v@),
            None => param_value(params@, key@) is None,
        },
{
    let mut i: usize = 0;
    assert(params@.skip(0) =~= params@);
    while i < params.len()
        invariant
            i <= params@.len(),
            param_value(params@, key@) == param_value(params@.skip(i as int), key@),
        decreases params@.len() - i,
    {
        let (k, v) = &params[i];
        assert(params@.skip(i as int).drop_first() =~= params@.skip(i + 1));
        if bytes_equal(k.as_str().as_bytes(), key) {
            return Some(v);
        }
        i = i + 1;
    }
    None
}

/// Reads the pagination from the query parameters of the question list.
pub fn extract_pagination(params: &Vec<(String, String)>) -> (r: Result<Pagination, Error>)
    ensures
        r == pagination_of(params@),
{
    let limit_name: [u8; 5] = [108, 105, 109, 105, 116];
    let offset_name: [u8; 6] = [111, 102, 102, 115, 101, 116];
    assert(limit_name@ == limit_key());
    assert(offset_name@ == offset_key());
    let limit_text = find_param(params, &limit_name);
    let offset_text = find_param(params, &offset_name);
    match (limit_text, offset_text) {
        (Some(l), Some(o)) => {
            let limit = match parse_i32(l.as_str()) {
                Some(n) => n,
                None => return Err(Error::ParseError),
            };
            let offset = match parse_i32(o.as_str()) {
                Some(n) => n,
                None => return Err(Error::ParseError),
            };
            Ok(Pagination { limit: Some(limit), offset })
        },
        _ => Err(Error::MissingParameters),
    }
}

} // verus!
