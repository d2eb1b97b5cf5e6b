use actix_web::http::header::HeaderMap;
use vstd::prelude::*;

verus! {

#[verifier::external_type_specification]
#[verifier::external_body]
pub struct ExHeaderMap(HeaderMap);

/// What a header map holds: for each header name, in lower case, the raw
/// bytes of its values in the order in which they were added.
pub uninterp spec fn header_entries(m: HeaderMap) -> Map<Seq<char>, Seq<Seq<u8>>>;

/// A character that may stand in a header name looked up here.
pub open spec fn is_name_char(c: char) -> bool {
    ('a' <= c && c <= 'z') || ('A' <= c && c <= 'Z') || ('0' <= c && c <= '9') || c == '-'
}

/// A header name made of ASCII letters, digits and dashes.
pub open spec fn is_plain_header_name(name: Seq<char>) -> bool {
    &&& name.len() > 0
    &&& forall|i: int| 0 <= i < name.len() ==> is_name_char(#[trigger] name[i])
}

/// The lower-case form of an ASCII character; other characters are kept.
pub open spec fn ascii_lower(c: char) -> char {
    if 'A' <= c && c <= 'Z' {
        ((c as u32) + 32) as char
    } else {
        c
    }
}

/// The key under which a header name is stored.
pub open spec fn header_key(name: Seq<char>) -> Seq<char> {
    name.map_values(|c: char| ascii_lower(c))
}

/// The first value stored under `name`, if any.
pub open spec fn first_entry(entries: Map<Seq<char>, Seq<Seq<u8>>>, name: Seq<char>) -> Option<
    Seq<u8>,
> {
    let key = header_key(name);
    if entries.contains_key(key) && entries[key].len() > 0 {
        Some(entries[key][0])
    } else {
        None
    }
}

/// Relies on actix_http's `HeaderMap::get`: it parses the name into a
/// lower-case header name and returns the first value stored under it, whose
/// bytes `HeaderValue::as_bytes` hands over.
#[verifier::external_body]
pub(crate) fn first_header_value(headers: &HeaderMap, name: &str) -> (r: Option<Vec<u8>>)
    requires
        is_plain_header_name(name@),
    ensures
        r matches Some(v) ==> Some(v@) == first_entry(header_entries(*headers), name@),
        r is None ==> first_entry(header_entries(*headers), name@) is None,
{
    headers.get(name).map(|v| v.as_bytes().to_vec())
}

} // verus!
