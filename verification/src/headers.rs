//! HTTP headers: the names and values that are valid, and the map that holds
//! them.

use vstd::prelude::*;
use vstd::string::*;
use vstd::utf8::*;
use crate::error::{Error, ErrorV};
use crate::forward::UpstreamType;
use crate::json::{lemma_step, lemma_whole, opt_text};
use crate::text::{ascii_lower, cat, has_prefix, strip_prefix, trim, trimmed};

verus! {

/// The name of a header as `http` holds it.
#[verifier::external_type_specification]
#[verifier::external_body]
pub struct ExHeaderName(http::HeaderName);

/// The value of a header as `http` holds it.
#[verifier::external_type_specification]
#[verifier::external_body]
pub struct ExHeaderValue(http::HeaderValue);

/// A map of headers as `http` holds it.
#[verifier::external_type_specification]
#[verifier::external_body]
#[verifier::reject_recursive_types(T)]
pub struct ExHeaderMap<T>(http::HeaderMap<T>);

/// The text of a header name, which is in lower case.
pub uninterp spec fn name_text(n: http::HeaderName) -> Seq<char>;

/// The bytes of a header value.
pub uninterp spec fn value_bytes(v: http::HeaderValue) -> Seq<u8>;

/// The values of each header in a map, in the order in which they were added.
pub uninterp spec fn header_values(h: http::HeaderMap<http::HeaderValue>) -> Map<Seq<char>, Seq<Seq<u8>>>;

/// The values of a map without headers.
pub open spec fn no_values() -> Map<Seq<char>, Seq<Seq<u8>>> {
    Map::empty()
}

/// Whether a character may stand in a header name.
pub open spec fn is_name_char(c: char) -> bool {
    ||| 'a' <= c <= 'z'
    ||| 'A' <= c <= 'Z'
    ||| '0' <= c <= '9'
    ||| c == '!' || c == '#' || c == '$' || c == '%' || c == '&' || c == '\'' || c == '*' || c == '+'
    ||| c == '-' || c == '.' || c == '^' || c == '_' || c == '`' || c == '|' || c == '~'
}

/// Whether a text is a header name.
pub open spec fn is_header_name(s: Seq<char>) -> bool {
    0 < s.len() <= 65535 && forall|i: int| 0 <= i < s.len() ==> is_name_char(#[trigger] s[i])
}

/// Whether a byte is a visible ASCII character, a space or a tab.
pub open spec fn is_visible_byte(b: u8) -> bool {
    32 <= b < 127 || b == 9
}

/// Whether bytes are all visible.
pub open spec fn all_visible(b: Seq<u8>) -> bool {
    forall|i: int| 0 <= i < b.len() ==> is_visible_byte(#[trigger] b[i])
}

/// Whether a byte may stand in a header value: any but the control characters
/// other than the tab.
pub open spec fn is_value_byte(b: u8) -> bool {
    b >= 32 && b != 127 || b == 9
}

/// Whether bytes are a header value.
pub open spec fn is_header_value(b: Seq<u8>) -> bool {
    forall|i: int| 0 <= i < b.len() ==> is_value_byte(#[trigger] b[i])
}

/// Calls `HeaderName::from_bytes` on a text: a name is one to 65535 token
/// characters, and is held in lower case.
#[verifier::external_body]
fn header_name(s: &str) -> (r: Option<http::HeaderName>)
    ensures
        match r {
            Some(n) => is_header_name(s@) && name_text(n) == ascii_lower(s@),
            None => !is_header_name(s@),
        },
{
    http::HeaderName::from_bytes(s.as_bytes()).ok()
}

/// Calls `HeaderValue::from_str`: a value is any text without control characters
/// other than the tab, and is held as its bytes.
#[verifier::external_body]
fn header_value(s: &str) -> (r: Option<http::HeaderValue>)
    ensures
        match r {
            Some(v) => is_header_value(encode_utf8(s@)) && value_bytes(v) == encode_utf8(s@),
            None => !is_header_value(encode_utf8(s@)),
        },
{
    http::HeaderValue::from_str(s).ok()
}

/// Calls `HeaderValue::to_str`: the text of a value that is visible ASCII.
#[verifier::external_body]
fn header_text(v: &http::HeaderValue) -> (r: Option<&str>)
    ensures
        match r {
            Some(s) => all_visible(value_bytes(*v)) && encode_utf8(s@) == value_bytes(*v),
            None => !all_visible(value_bytes(*v)),
        },
{
    v.to_str().ok()
}

/// Calls `HeaderMap::new`: a map without headers.
#[verifier::external_body]
fn no_headers() -> (r: http::HeaderMap<http::HeaderValue>)
    ensures
        header_values(r) == no_values(),
{
    http::HeaderMap::new()
}

/// Calls `HeaderMap::try_insert`: the value takes the place of all values of that
/// name. A map that would outgrow its table is left as it is, which cannot happen
/// with at most `MAX_HEADERS` names in it.
#[verifier::external_body]
fn put_header(h: &mut http::HeaderMap<http::HeaderValue>, name: http::HeaderName, value: http::HeaderValue) -> (r: bool)
    ensures
        r ==> header_values(*final(h)) == header_values(*old(h)).insert(name_text(name), seq![value_bytes(value)]),
        !r ==> header_values(*final(h)) == header_values(*old(h)),
        header_values(*old(h)).dom().len() <= MAX_HEADERS ==> r,
{
    h.try_insert(name, value).is_ok()
}

/// Calls `HeaderMap::get` with a name: the first value of that name, in whatever
/// case the name is written.
#[verifier::external_body]
fn get_header<'a>(h: &'a http::HeaderMap<http::HeaderValue>, name: &str) -> (r: Option<&'a http::HeaderValue>)
    ensures
        match r {
            Some(v) => header_values(*h).contains_key(ascii_lower(name@)) && header_values(
                *h,
            )[ascii_lower(name@)].len() > 0 && value_bytes(*v) == header_values(*h)[ascii_lower(name@)][0],
            None => !header_values(*h).contains_key(ascii_lower(name@)),
        },
{
    h.get(name)
}

/// Calls `HeaderMap::iter`: each name with each of its values. The values of one
/// name come in their order, so the last entry of a name has its last value.
#[verifier::external_body]
fn header_entries(h: &http::HeaderMap<http::HeaderValue>) -> (r: Vec<(http::HeaderName, http::HeaderValue)>)
    ensures
        lists_headers(r@, header_values(*h)),
{
    h.iter().map(|(n, v)| (n.clone(), v.clone())).collect()
}

/// With how many names in it a map of headers takes one more in any case.
pub const MAX_HEADERS: usize = 6553;

/// Whether a list names every header of a map and no other, with the last value
/// of each name in the last entry of that name.
pub open spec fn lists_headers(
    list: Seq<(http::HeaderName, http::HeaderValue)>,
    m: Map<Seq<char>, Seq<Seq<u8>>>,
) -> bool {
    &&& forall|i: int| 0 <= i < list.len() ==> m.contains_key(name_text((#[trigger] list[i]).0))
    &&& forall|k: Seq<char>| #[trigger]
        m.contains_key(k) ==> m[k].len() > 0 && folded(list).contains_key(k) && folded(list)[k] == seq![m[k].last()]
    &&& m.dom().finite()
}

/// The map that comes of inserting the entries of a list one after another.
pub open spec fn folded(list: Seq<(http::HeaderName, http::HeaderValue)>) -> Map<Seq<char>, Seq<Seq<u8>>>
    decreases list.len(),
{
    if list.len() == 0 {
        Map::empty()
    } else {
        folded(list.drop_last()).insert(name_text(list.last().0), seq![value_bytes(list.last().1)])
    }
}

/// The headers of `base`, overridden by those of `over`.
pub open spec fn overridden(
    base: Map<Seq<char>, Seq<Seq<u8>>>,
    over: Map<Seq<char>, Seq<Seq<u8>>>,
) -> Map<Seq<char>, Seq<Seq<u8>>> {
    Map::new(
        |k: Seq<char>| base.contains_key(k) || over.contains_key(k),
        |k: Seq<char>|
            if over.contains_key(k) {
                seq![over[k].last()]
            } else {
                base[k]
            },
    )
}

/// Whether a pair of texts is a header, once both are trimmed.
pub open spec fn is_header(name: Seq<char>, value: Seq<char>) -> bool {
    is_header_name(trim(name)) && trim(value).len() > 0 && is_header_value(encode_utf8(trim(value)))
}

/// The map that comes of the pairs that are headers; later pairs win.
pub open spec fn overrides(pairs: Seq<(String, String)>) -> Map<Seq<char>, Seq<Seq<u8>>>
    decreases pairs.len(),
{
    if pairs.len() == 0 {
        Map::empty()
    } else {
        let front = overrides(pairs.drop_last());
        let (name, value) = pairs.last();
        if is_header(name@, value@) {
            front.insert(ascii_lower(trim(name@)), seq![encode_utf8(trim(value@))])
        } else {
            front
        }
    }
}

/// The names among the first pairs are names among all.
proof fn lemma_overrides_grow(pairs: Seq<(String, String)>, n: int)
    requires
        0 <= n <= pairs.len(),
    ensures
        overrides(pairs).dom().finite(),
        overrides(pairs.take(n)).dom().subset_of(overrides(pairs).dom()),
        overrides(pairs.take(n)).dom().len() <= overrides(pairs).dom().len(),
    decreases pairs.len(),
{
    if n < pairs.len() {
        let front = pairs.drop_last();
        lemma_overrides_grow(front, n);
        assert(front.take(n) =~= pairs.take(n));
    } else {
        lemma_whole(pairs);
        if pairs.len() > 0 {
            lemma_overrides_grow(pairs.drop_last(), 0);
        }
    }
    vstd::set_lib::lemma_len_subset(overrides(pairs.take(n)).dom(), overrides(pairs).dom());
}

/// Build a validated header map from `(name, value)` pairs of a configuration
/// table. Names and values are trimmed. Entries with empty or invalid names or
/// values are skipped. Later pairs win over earlier ones. With more names than
/// `MAX_HEADERS`, those that the map has no room for may be left out.
pub fn header_overrides_from_pairs(entries: Vec<(String, String)>) -> (r: http::HeaderMap<http::HeaderValue>)
    ensures
        overrides(entries@).dom().len() <= MAX_HEADERS ==> header_values(r) == overrides(entries@),
        header_values(r).dom().subset_of(overrides(entries@).dom()),
{
    let mut headers = no_headers();
    let mut i: usize = 0;
    while i < entries.len()
        invariant
            i <= entries@.len(),
            overrides(entries@).dom().len() <= MAX_HEADERS ==> header_values(headers) == overrides(
                entries@.take(i as int),
            ),
            header_values(headers).dom().subset_of(overrides(entries@.take(i as int)).dom()),
        decreases entries@.len() - i,
    {
        proof {
            lemma_step(entries@, i as int);
            lemma_overrides_grow(entries@, i as int);
        }
        let name = trimmed(entries[i].0.as_str());
        let value = trimmed(entries[i].1.as_str());
        if !value.is_empty() {
            if let Some(n) = header_name(name) {
                if let Some(v) = header_value(value) {
                    put_header(&mut headers, n, v);
                }
            }
        }
        i += 1;
    }
    proof {
        lemma_whole(entries@);
    }
    headers
}

proof fn lemma_printable_is_value(s: Seq<char>)
    requires
        forall|i: int| 0 <= i < s.len() ==> ' ' <= #[trigger] s[i] <= '~',
    ensures
        is_header_value(encode_utf8(s)),
{
    assert(is_ascii_chars(s)) by {
        assert forall|i: int| 0 <= i < s.len() implies '\0' <= #[trigger] s[i] <= '\u{7f}' by {}
    }
    is_ascii_chars_encode_utf8(s);
    let b = encode_utf8(s);
    assert forall|i: int| 0 <= i < b.len() implies is_value_byte(#[trigger] b[i]) by {
        assert(b[i] == s[i] as u8);
    }
}

/// A text of lower-case letters and hyphens.
pub open spec fn is_plain_name(s: Seq<char>) -> bool {
    0 < s.len() <= 100 && forall|i: int|
        0 <= i < s.len() ==> ('a' <= #[trigger] s[i] <= 'z' || s[i] == '-')
}

proof fn lemma_plain_name(s: Seq<char>)
    requires
        is_plain_name(s),
    ensures
        is_header_name(s),
        ascii_lower(s) == s,
{
    assert(ascii_lower(s) =~= s);
}

proof fn lemma_known_names()
    ensures
        is_plain_name("x-api-key"@),
        is_plain_name("anthropic-version"@),
        is_plain_name("authorization"@),
        is_plain_name("content-type"@),
        is_header_value(encode_utf8("2023-06-01"@)),
        is_header_value(encode_utf8("application/json"@)),
{
    reveal_strlit("x-api-key");
    reveal_strlit("anthropic-version");
    reveal_strlit("authorization");
    reveal_strlit("content-type");
    reveal_strlit("2023-06-01");
    reveal_strlit("application/json");
    lemma_printable_is_value("2023-06-01"@);
    lemma_printable_is_value("application/json"@);
}

/// One header by itself.
pub open spec fn single_value(value: Seq<char>) -> Seq<Seq<u8>> {
    seq![encode_utf8(value)]
}

/// Adds a header whose name is plain.
fn put_known(h: &mut http::HeaderMap<http::HeaderValue>, name: &str, value: http::HeaderValue)
    requires
        is_plain_name(name@),
        header_values(*old(h)).dom().len() <= MAX_HEADERS,
    ensures
        header_values(*final(h)) == header_values(*old(h)).insert(name@, seq![value_bytes(value)]),
{
    proof {
        lemma_plain_name(name@);
    }
    if let Some(n) = header_name(name) {
        put_header(h, n, value);
    }
}

/// The value of the header that authenticates a request.
pub open spec fn auth_value(upstream_type: UpstreamType, api_key: Seq<char>) -> Seq<char> {
    match upstream_type {
        UpstreamType::AnthropicMessages => api_key,
        _ => "Bearer "@ + api_key,
    }
}

/// The headers that every request to an upstream has.
pub open spec fn default_headers(upstream_type: UpstreamType, api_key: Seq<char>) -> Map<Seq<char>, Seq<Seq<u8>>> {
    let value = single_value(auth_value(upstream_type, api_key));
    let m = match upstream_type {
        UpstreamType::AnthropicMessages => map![
            "x-api-key"@ => value,
            "anthropic-version"@ => single_value("2023-06-01"@),
        ],
        _ => map!["authorization"@ => value],
    };
    m.insert("content-type"@, single_value("application/json"@))
}

/// Why a request cannot be sent with an API key.
pub open spec fn bad_api_key() -> ErrorV {
    ErrorV::Config("Invalid API key header: failed to parse header value"@)
}

/// Why a request cannot be sent with so many headers.
pub open spec fn too_many_headers() -> ErrorV {
    ErrorV::Config("Too many headers"@)
}

/// The headers of a request to an upstream: those for the authentication and the
/// content type, and then the overrides, which win.
///
/// Anthropic upstreams authenticate with `x-api-key` and `anthropic-version`,
/// OpenAI-style upstreams with `Authorization: Bearer`.
pub fn upstream_headers(
    upstream_type: UpstreamType,
    api_key: &str,
    override_headers: &http::HeaderMap<http::HeaderValue>,
) -> (r: Result<http::HeaderMap<http::HeaderValue>, Error>)
    ensures
        match r {
            Ok(h) => is_header_value(encode_utf8(auth_value(upstream_type, api_key@))) && header_values(h) == overridden(
                default_headers(upstream_type, api_key@),
                header_values(*override_headers),
            ),
            Err(e) => if is_header_value(encode_utf8(auth_value(upstream_type, api_key@))) {
                e@ == too_many_headers() && header_values(*override_headers).dom().len() + 3 > MAX_HEADERS
            } else {
                e@ == bad_api_key()
            },
        },
{
    let ghost base = default_headers(upstream_type, api_key@);
    let ghost over = header_values(*override_headers);
    proof {
        lemma_known_names();
    }
    let text = match upstream_type {
        UpstreamType::AnthropicMessages => api_key.to_owned(),
        _ => cat("Bearer ", api_key),
    };
    let auth = match header_value(text.as_str()) {
        Some(v) => v,
        None => {
            return Err(
                Error::Config("Invalid API key header: failed to parse header value".to_owned()),
            );
        },
    };
    let mut headers = no_headers();
    match upstream_type {
        UpstreamType::AnthropicMessages => {
            put_known(&mut headers, "x-api-key", auth);
            if let Some(v) = header_value("2023-06-01") {
                put_known(&mut headers, "anthropic-version", v);
            }
        },
        _ => {
            put_known(&mut headers, "authorization", auth);
        },
    }
    if let Some(v) = header_value("application/json") {
        put_known(&mut headers, "content-type", v);
    }
    assert(header_values(headers) == base);
    assert(base.dom().finite() && base.dom().len() <= 3);
    let list = header_entries(override_headers);
    let ghost all = list@;
    assert(base.union_prefer_right(folded(all.take(0))) =~= base);
    for entry in it: list
        invariant
            it.seq() == all,
            base.dom().finite() && base.dom().len() <= 3,
            over == header_values(*override_headers),
            is_header_value(encode_utf8(auth_value(upstream_type, api_key@))),
            lists_headers(all, over),
            header_values(headers) == base.union_prefer_right(folded(all.take(it.index() as int))),
    {
        let (name, value) = entry;
        let ghost i = it.index() as int;
        let ghost now = folded(all.take(i));
        proof {
            lemma_step(all, i);
            lemma_folded_within(all.take(i), over);
            assert(header_values(headers).dom() =~= base.dom().union(now.dom()));
            vstd::set_lib::lemma_len_union(base.dom(), now.dom());
            vstd::set_lib::lemma_len_subset(now.dom(), over.dom());
        }
        if !put_header(&mut headers, name, value) {
            return Err(Error::Config("Too many headers".to_owned()));
        }
        proof {
            let k = name_text(name);
            let v = seq![value_bytes(value)];
            assert(base.union_prefer_right(now).insert(k, v) =~= base.union_prefer_right(now.insert(k, v)));
        }
    }
    proof {
        lemma_whole(all);
        lemma_folded_within(all, over);
        assert(header_values(headers) =~= overridden(base, over));
    }
    Ok(headers)
}

proof fn lemma_folded_within(
    list: Seq<(http::HeaderName, http::HeaderValue)>,
    over: Map<Seq<char>, Seq<Seq<u8>>>,
)
    requires
        forall|i: int| 0 <= i < list.len() ==> over.contains_key(name_text((#[trigger] list[i]).0)),
    ensures
        folded(list).dom().subset_of(over.dom()),
        folded(list).dom().finite(),
    decreases list.len(),
{
    if list.len() > 0 {
        let front = list.drop_last();
        assert forall|i: int| 0 <= i < front.len() implies over.contains_key(name_text((#[trigger] front[i]).0)) by {
            assert(front[i] == list[i]);
        }
        lemma_folded_within(front, over);
        assert(over.contains_key(name_text(list[list.len() - 1].0)));
    }
}

/// The text of the first value of a header, where it is visible ASCII.
pub open spec fn header_text_of(h: Map<Seq<char>, Seq<Seq<u8>>>, name: Seq<char>) -> Option<Seq<char>> {
    if h.contains_key(name) && h[name].len() > 0 && all_visible(h[name][0]) {
        Some(decode_utf8(h[name][0]))
    } else {
        None
    }
}

/// The text of a header, where it is visible ASCII.
pub(crate) fn text_of_header<'a>(h: &'a http::HeaderMap<http::HeaderValue>, name: &str) -> (r: Option<&'a str>)
    requires
        is_plain_name(name@),
    ensures
        opt_text(r) == header_text_of(header_values(*h), name@),
{
    proof {
        lemma_plain_name(name@);
    }
    match get_header(h, name) {
        Some(v) => {
            let t = header_text(v);
            proof {
                if let Some(s) = t {
                    encode_utf8_decode_utf8(s@);
                }
            }
            t
        },
        None => None,
    }
}

/// The token that a request brings: the key in `x-api-key`, or else the bearer
/// token in `authorization`, or else nothing.
pub open spec fn presented_token(h: Map<Seq<char>, Seq<Seq<u8>>>) -> Seq<char> {
    match header_text_of(h, "x-api-key"@) {
        Some(t) => t,
        None => match header_text_of(h, "authorization"@) {
            Some(t) => if has_prefix(t, "Bearer "@) {
                t.skip("Bearer "@.len() as int)
            } else {
                Seq::empty()
            },
            None => Seq::empty(),
        },
    }
}

/// Authenticate the inbound request against the configured key, where there is
/// one. Accepts `x-api-key` or `Authorization: Bearer`; exact match required.
pub fn authenticate(headers: &http::HeaderMap<http::HeaderValue>, expected: Option<&str>) -> (r: Result<(), Error>)
    ensures
        match r {
            Ok(_) => expected is None || presented_token(header_values(*headers)) == expected->0@,
            Err(e) => expected is Some && presented_token(header_values(*headers)) != expected->0@ && e@
                == ErrorV::Unauthorized("Invalid or missing authentication token"@),
        },
{
    proof {
        lemma_known_names();
        reveal_strlit("");
        assert(""@ =~= Seq::<char>::empty());
    }
    if let Some(expected) = expected {
        let actual = match text_of_header(headers, "x-api-key") {
            Some(t) => t,
            None => match text_of_header(headers, "authorization") {
                Some(t) => match strip_prefix(t, "Bearer ") {
                    Some(token) => token,
                    None => "",
                },
                None => "",
            },
        };
        if !actual.eq(expected) {
            return Err(Error::Unauthorized("Invalid or missing authentication token".to_owned()));
        }
    }
    Ok(())
}

} // verus!
