//! The headers of an incoming HTTP request, and the sets of them that the
//! proxy forwards.

use vstd::prelude::*;
use crate::json::JsonValue;
use crate::message::is_map_object;
use crate::string_map::StringMap;
use crate::text::str_eq;

verus! {

/// One header of an incoming request, in the order the request holds them:
/// its (lower-case) name, and its value as text when the value is visible
/// ASCII (`None` otherwise).
#[derive(Debug)]
pub struct RequestHeader {
    pub name: String,
    pub value: Option<String>,
}

/// The first header called `name`, as `HeaderMap::get` finds it.
pub open spec fn first_header(headers: Seq<RequestHeader>, name: Seq<char>) -> Option<RequestHeader>
    decreases headers.len(),
{
    if headers.len() == 0 {
        None
    } else if headers[0].name@ == name {
        Some(headers[0])
    } else {
        first_header(headers.drop_first(), name)
    }
}

/// The text of the first header called `name`, if that header's value is
/// text.
pub open spec fn header_text(headers: Seq<RequestHeader>, name: Seq<char>) -> Option<String> {
    match first_header(headers, name) {
        Some(h) => h.value,
        None => None,
    }
}

/// The hop-by-hop headers, which a proxy does not forward.
pub open spec fn is_hop_by_hop(name: Seq<char>) -> bool {
    name == "connection"@ || name == "keep-alive"@ || name == "proxy-authenticate"@ || name
        == "proxy-authorization"@ || name == "te"@ || name == "trailers"@ || name
        == "transfer-encoding"@ || name == "upgrade"@
}

/// The map of the headers whose value is text, the hop-by-hop ones left out
/// unless `forward_hop_by_hop` is set, a
/// later header overriding an earlier one of the same name.
pub open spec fn text_header_map(headers: Seq<RequestHeader>, forward_hop_by_hop: bool) -> Map<
    Seq<char>,
    Seq<char>,
>
    decreases headers.len(),
{
    if headers.len() == 0 {
        Map::empty()
    } else {
        let rest = text_header_map(headers.drop_last(), forward_hop_by_hop);
        let h = headers.last();
        match h.value {
            Some(v) => if forward_hop_by_hop || !is_hop_by_hop(h.name@) {
                rest.insert(h.name@, v@)
            } else {
                rest
            },
            None => rest,
        }
    }
}

/// The text of the first header called `name` (`HeaderMap::get` followed by
/// `HeaderValue::to_str`).
pub fn header_value<'a>(headers: &'a Vec<RequestHeader>, name: &str) -> (r: Option<&'a String>)
    ensures
        match r {
            Some(v) => header_text(headers@, name@) == Some(*v),
            None => header_text(headers@, name@) is None,
        },
{
    let mut i: usize = 0;
    assert(headers@.skip(0) =~= headers@);
    while i < headers.len()
        invariant
            0 <= i <= headers@.len(),
            first_header(headers@, name@) == first_header(headers@.skip(i as int), name@),
        decreases headers@.len() - i,
    {
        assert(headers@.skip(i as int).drop_first() =~= headers@.skip(i + 1));
        assert(headers@.skip(i as int)[0] == headers@[i as int]);
        if str_eq(headers[i].name.as_str(), name) {
            return match &headers[i].value {
                Some(v) => Some(v),
                None => None,
            };
        }
        i = i + 1;
    }
    None
}

/// Whether a header name is hop-by-hop.
pub fn hop_by_hop(name: &str) -> (r: bool)
    ensures
        r == is_hop_by_hop(name@),
{
    str_eq(name, "connection") || str_eq(name, "keep-alive") || str_eq(name, "proxy-authenticate")
        || str_eq(name, "proxy-authorization") || str_eq(name, "te") || str_eq(name, "trailers")
        || str_eq(name, "transfer-encoding") || str_eq(name, "upgrade")
}

/// Collects the headers whose value is text into a map, leaving out the
/// hop-by-hop ones unless `forward_hop_by_hop` is set.
pub(crate) fn collect_headers(headers: &Vec<RequestHeader>, forward_hop_by_hop: bool) -> (r: StringMap)
    ensures
        r@ == text_header_map(headers@, forward_hop_by_hop),
{
    let mut map = StringMap::new();
    let mut i: usize = 0;
    assert(headers@.take(0) =~= Seq::<RequestHeader>::empty());
    while i < headers.len()
        invariant
            0 <= i <= headers@.len(),
            map@ == text_header_map(headers@.take(i as int), forward_hop_by_hop),
        decreases headers@.len() - i,
    {
        assert(headers@.take(i + 1).drop_last() =~= headers@.take(i as int));
        assert(headers@.take(i + 1).last() == headers@[i as int]);
        match &headers[i].value {
            Some(v) => {
                if forward_hop_by_hop || !hop_by_hop(headers[i].name.as_str()) {
                    map.insert(headers[i].name.clone(), v.clone());
                }
            },
            None => {},
        }
        i = i + 1;
    }
    assert(headers@.take(headers@.len() as int) =~= headers@);
    map
}

/// The headers that the proxy forwards with a request: those whose value is
/// text, without the hop-by-hop ones.
pub fn headers_to_map(headers: &Vec<RequestHeader>) -> (r: StringMap)
    ensures
        r@ == text_header_map(headers@, false),
{
    collect_headers(headers, false)
}

/// Every header whose value is text, as a JSON object of strings.
pub fn headers_to_json(headers: &Vec<RequestHeader>) -> (r: JsonValue)
    ensures
        exists|m: StringMap| #[trigger] is_map_object(r, m) && m@ == text_header_map(headers@, true),
{
    let m = collect_headers(headers, true);
    let ghost g = m;
    let r = crate::message::map_object(m);
    assert(is_map_object(r, g));
    r
}

/// The proxy never forwards a hop-by-hop header: no key of the forwarded
/// header map is one.
pub proof fn law_no_hop_by_hop_forwarded(headers: Seq<RequestHeader>)
    ensures
        forall|k: Seq<char>|
            #[trigger] text_header_map(headers, false).contains_key(k) ==> !is_hop_by_hop(k),
    decreases headers.len(),
{
    if headers.len() > 0 {
        let rest = text_header_map(headers.drop_last(), false);
        law_no_hop_by_hop_forwarded(headers.drop_last());
        assert forall|k: Seq<char>|
            #[trigger] text_header_map(headers, false).contains_key(k) implies !is_hop_by_hop(k) by {
            if k != headers.last().name@ {
                assert(rest.contains_key(k));
            }
        }
    }
}

/// The proxy forwards every header but the eight hop-by-hop ones: for any
/// header name other than `connection`, `keep-alive`, `proxy-authenticate`,
/// `proxy-authorization`, `te`, `trailers`, `transfer-encoding` and
/// `upgrade`, the forwarded map holds it exactly when some header of that
/// name has a text value, with the last such value, just as the map of all
/// text headers does.
pub proof fn law_forwards_all_but_hop_by_hop(headers: Seq<RequestHeader>, name: Seq<char>)
    requires
        name != "connection"@,
        name != "keep-alive"@,
        name != "proxy-authenticate"@,
        name != "proxy-authorization"@,
        name != "te"@,
        name != "trailers"@,
        name != "transfer-encoding"@,
        name != "upgrade"@,
    ensures
        text_header_map(headers, false).contains_key(name) == text_header_map(headers, true).contains_key(
            name,
        ),
        text_header_map(headers, true).contains_key(name) ==> text_header_map(headers, false)[name]
            == text_header_map(headers, true)[name],
    decreases headers.len(),
{
    if headers.len() > 0 {
        law_forwards_all_but_hop_by_hop(headers.drop_last(), name);
    }
}

/// The map of all text headers holds a name exactly when some header of
/// that name has a text value, and then with the value of the last such
/// header.
pub proof fn law_all_headers_keep_last_text(headers: Seq<RequestHeader>, name: Seq<char>)
    ensures
        text_header_map(headers, true).contains_key(name) <==> exists|i: int|
            0 <= i < headers.len() && #[trigger] headers[i].name@ == name && headers[i].value is Some,
        forall|i: int|
            0 <= i < headers.len() && #[trigger] headers[i].name@ == name && headers[i].value is Some
                && (forall|j: int|
                i < j < headers.len() && #[trigger] headers[j].name@ == name ==> headers[j].value is None)
                ==> text_header_map(headers, true)[name] == headers[i].value.unwrap()@,
    decreases headers.len(),
{
    if headers.len() > 0 {
        let init = headers.drop_last();
        let n = headers.len() - 1;
        law_all_headers_keep_last_text(init, name);
        assert forall|i: int| 0 <= i < n implies #[trigger] init[i] == headers[i] by {}
        if text_header_map(headers, true).contains_key(name) {
            if headers[n].name@ == name && headers[n].value is Some {
            } else {
                let i = choose|i: int|
                    0 <= i < init.len() && #[trigger] init[i].name@ == name && init[i].value is Some;
                assert(headers[i].name@ == name);
            }
        }
        if exists|i: int|
            0 <= i < headers.len() && #[trigger] headers[i].name@ == name && headers[i].value is Some {
            let i = choose|i: int|
                0 <= i < headers.len() && #[trigger] headers[i].name@ == name && headers[i].value is Some;
            if i < n {
                assert(init[i].name@ == name);
            }
        }
        assert forall|i: int|
            0 <= i < headers.len() && #[trigger] headers[i].name@ == name && headers[i].value is Some
                && (forall|j: int|
                i < j < headers.len() && #[trigger] headers[j].name@ == name ==> headers[j].value is None)
                implies text_header_map(headers, true)[name] == headers[i].value.unwrap()@ by {
            if i < n {
                assert(headers[n].name@ == name ==> headers[n].value is None);
                assert(init[i].name@ == name);
                assert forall|j: int| i < j < init.len() && #[trigger] init[j].name@ == name implies init[j].value is None by {
                    assert(headers[j].name@ == name);
                }
            }
        }
    }
}

} // verus!
