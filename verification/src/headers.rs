//! HTTP headers that go to the backend and back to the client.
use vstd::prelude::*;

use crate::text::{same_text, unsigned_text};

verus! {

/// An HTTP header, its name in lower case.
pub struct Header {
    pub name: String,
    pub value: Vec<u8>,
}

/// What a header says.
pub struct HeaderView {
    pub name: Seq<char>,
    pub value: Seq<u8>,
}

impl View for Header {
    type V = HeaderView;

    open spec fn view(&self) -> HeaderView {
        HeaderView { name: self.name@, value: self.value@ }
    }
}

/// What headers say.
pub open spec fn header_views(headers: Seq<Header>) -> Seq<HeaderView> {
    headers.map_values(|header: Header| header@)
}

/// A copy of bytes.
pub(crate) fn copy_bytes(bytes: &Vec<u8>) -> (copy: Vec<u8>)
    ensures
        copy@ == bytes@,
{
    let mut copy: Vec<u8> = Vec::new();
    for i in 0..bytes.len()
        invariant
            copy@ == bytes@.take(i as int),
    {
        copy.push(bytes[i]);
        assert(bytes@.take(i + 1) =~= bytes@.take(i as int).push(bytes@[i as int]));
    }
    assert(bytes@.take(bytes@.len() as int) =~= bytes@);
    copy
}

/// The bytes that may stand in the value of a header: a tab, and from the space on all but the
/// delete character.
pub open spec fn valid_header_value(value: Seq<u8>) -> bool {
    forall|i: int| 0 <= i < value.len() ==> #[trigger] value[i] == 9 || (value[i] >= 32 && value[i] != 127)
}

/// Bytes that the name of a header may have at most.
pub const MAX_HEADER_NAME_LEN: usize = 65535;

/// A character that may stand in the name of a header.
pub open spec fn header_name_char(c: char) -> bool {
    'a' <= c <= 'z' || 'A' <= c <= 'Z' || '0' <= c <= '9' || c == '!' || c == '#' || c == '$' || c == '%'
        || c == '&' || c == '\'' || c == '*' || c == '+' || c == '-' || c == '.' || c == '^' || c == '_'
        || c == '`' || c == '|' || c == '~'
}

/// A text that may be the name of a header.
pub open spec fn valid_header_name(name: Seq<char>) -> bool {
    &&& 1 <= name.len() <= MAX_HEADER_NAME_LEN
    &&& forall|i: int| 0 <= i < name.len() ==> header_name_char(#[trigger] name[i])
}

/// The header name that a text gives: the text in lower case, where it may be one.
pub open spec fn header_name_text(name: Seq<char>) -> Option<Seq<char>> {
    if valid_header_name(name) {
        Some(name.map_values(|c: char| crate::text::ascii_lower(c)))
    } else {
        None
    }
}

/// `axum::http::HeaderValue::from_bytes`: whether it takes the bytes for a header value.
#[verifier::external_body]
fn accepts_header_value(value: &Vec<u8>) -> (accepted: bool)
    ensures
        accepted == valid_header_value(value@),
{
    axum::http::HeaderValue::from_bytes(value.as_slice()).is_ok()
}

/// `axum::http::HeaderName::from_str`: it takes a text of at most `MAX_HEADER_NAME_LEN` bytes that
/// is not empty and holds nothing but the characters of an HTTP token, and puts it in lower case.
#[verifier::external_body]
fn parse_header_name(name: &str) -> (parsed: Option<String>)
    ensures
        match parsed {
            Some(text) => header_name_text(name@) == Some(text@),
            None => header_name_text(name@) is None,
        },
{
    match <axum::http::HeaderName as std::str::FromStr>::from_str(name) {
        Ok(parsed) => Some(parsed.as_str().to_owned()),
        Err(_) => None,
    }
}

/// The value of the first header with a name.
pub open spec fn first_value(headers: Seq<HeaderView>, name: Seq<char>) -> Option<Seq<u8>>
    decreases headers.len(),
{
    if headers.len() == 0 {
        None
    } else if headers[0].name == name {
        Some(headers[0].value)
    } else {
        first_value(headers.drop_first(), name)
    }
}

/// The authorization among headers, where it may be passed on.
pub open spec fn authorization_of(headers: Seq<HeaderView>) -> Option<Seq<u8>> {
    match first_value(headers, "authorization"@) {
        Some(value) => if valid_header_value(value) {
            Some(value)
        } else {
            None
        },
        None => None,
    }
}

/// The authorization among headers, where it may be passed on.
pub fn find_authorization(headers: &Vec<Header>) -> (authorization: Option<Vec<u8>>)
    ensures
        match authorization {
            Some(value) => authorization_of(header_views(headers@)) == Some(value@),
            None => authorization_of(header_views(headers@)) is None,
        },
{
    let ghost views = header_views(headers@);
    assert(views.skip(0) =~= views);
    for i in 0..headers.len()
        invariant
            views == header_views(headers@),
            first_value(views, "authorization"@) == first_value(views.skip(i as int), "authorization"@),
    {
        assert(views.skip(i as int)[0] == headers@[i as int]@);
        assert(views.skip(i as int).drop_first() =~= views.skip(i + 1));
        if same_text(headers[i].name.as_str(), "authorization") {
            if accepts_header_value(&headers[i].value) {
                return Some(copy_bytes(&headers[i].value));
            }
            return None;
        }
    }
    None
}

/// A header that says that the body is JSON.
pub open spec fn json_content_type() -> HeaderView {
    HeaderView {
        name: "content-type"@,
        value: vstd::utf8::encode_utf8("application/json"@),
    }
}

/// The headers of a request to the backend: the content type where it has a body, and the
/// authorization where there is one.
pub open spec fn request_headers(has_body: bool, authorization: Option<Seq<u8>>) -> Seq<HeaderView> {
    let content_type = if has_body {
        seq![json_content_type()]
    } else {
        Seq::empty()
    };
    match authorization {
        Some(value) => content_type.push(HeaderView { name: "authorization"@, value }),
        None => content_type,
    }
}

/// What an authorization shows.
pub open spec fn optional_bytes(bytes: Option<Vec<u8>>) -> Option<Seq<u8>> {
    match bytes {
        Some(bytes) => Some(bytes@),
        None => None,
    }
}

/// The headers of a request to the backend.
pub fn upstream_headers(has_body: bool, authorization: &Option<Vec<u8>>) -> (headers: Vec<Header>)
    ensures
        header_views(headers@) == request_headers(has_body, optional_bytes(*authorization)),
{
    let mut headers: Vec<Header> = Vec::new();
    if has_body {
        headers.push(
            Header {
                name: "content-type".to_owned(),
                value: "application/json".as_bytes_vec(),
            },
        );
    }
    match authorization {
        Some(value) => {
            headers.push(Header { name: "authorization".to_owned(), value: copy_bytes(value) });
        },
        None => {},
    }
    assert(header_views(headers@) =~= request_headers(has_body, optional_bytes(*authorization)));
    headers
}

/// Some header has this name.
pub open spec fn has_header(headers: Seq<HeaderView>, name: Seq<char>) -> bool {
    exists|i: int| 0 <= i < headers.len() && (#[trigger] headers[i]).name == name
}

/// The headers with a value under a name: in place of the one that was there, or else at the end.
pub open spec fn with_header(headers: Seq<HeaderView>, header: HeaderView) -> Seq<HeaderView> {
    if has_header(headers, header.name) {
        headers.map_values(|other: HeaderView| if other.name == header.name { header } else { other })
    } else {
        headers.push(header)
    }
}

/// A header of the backend's answer as it goes on to the client, if it does: the length of the
/// content is that of the new body.
pub open spec fn passed_header(header: HeaderView, body_len: nat) -> Option<HeaderView> {
    match header_name_text(header.name) {
        None => None,
        Some(name) => if !valid_header_value(header.value) {
            None
        } else if name == "content-length"@ {
            Some(
                HeaderView {
                    name,
                    value: vstd::utf8::encode_utf8(crate::text::decimal(body_len as int)),
                },
            )
        } else {
            Some(HeaderView { name, value: header.value })
        },
    }
}

/// The headers of the answer to the client: those of the backend's answer, each name once with
/// its last value.
pub open spec fn passed_headers(headers: Seq<HeaderView>, body_len: nat) -> Seq<HeaderView>
    decreases headers.len(),
{
    if headers.len() == 0 {
        Seq::empty()
    } else {
        let before = passed_headers(headers.drop_last(), body_len);
        match passed_header(headers.last(), body_len) {
            Some(header) => with_header(before, header),
            None => before,
        }
    }
}

/// Puts a value under a name, in place of the one that was there.
fn set_header(headers: &mut Vec<Header>, name: String, value: Vec<u8>)
    ensures
        header_views(final(headers)@) == with_header(
            header_views(old(headers)@),
            HeaderView { name: name@, value: value@ },
        ),
{
    let ghost before = header_views(headers@);
    let ghost header = HeaderView { name: name@, value: value@ };
    let len = headers.len();
    let mut found = false;
    for i in 0..len
        invariant
            len == before.len(),
            headers@.len() == before.len(),
            header == (HeaderView { name: name@, value: value@ }),
            forall|j: int|
                0 <= j < i ==> (#[trigger] headers@[j])@ == if before[j].name == header.name {
                    header
                } else {
                    before[j]
                },
            forall|j: int| i <= j < before.len() ==> (#[trigger] headers@[j])@ == before[j],
            found == exists|j: int| 0 <= j < i && (#[trigger] before[j]).name == header.name,
    {
        assert(headers@[i as int]@ == before[i as int]);
        if same_text(headers[i].name.as_str(), name.as_str()) {
            headers.set(i, Header { name: name.clone(), value: copy_bytes(&value) });
            found = true;
        }
    }
    if !found {
        headers.push(Header { name, value });
    }
    assert(header_views(headers@) =~= with_header(before, header));
}

/// The headers of the answer to the client, made of those of the backend's answer.
pub fn response_headers(headers: &Vec<Header>, body_len: usize) -> (passed: Vec<Header>)
    ensures
        header_views(passed@) == passed_headers(header_views(headers@), body_len as nat),
{
    let ghost views = header_views(headers@);
    let mut passed: Vec<Header> = Vec::new();
    assert(header_views(passed@) =~= Seq::empty());
    for i in 0..headers.len()
        invariant
            views == header_views(headers@),
            header_views(passed@) == passed_headers(views.take(i as int), body_len as nat),
    {
        let ghost next = views.take(i + 1);
        assert(next.drop_last() =~= views.take(i as int));
        assert(next.last() == headers@[i as int]@);
        match parse_header_name(headers[i].name.as_str()) {
            Some(name) => {
                if accepts_header_value(&headers[i].value) {
                    let value = if same_text(name.as_str(), "content-length") {
                        unsigned_text(body_len as u64).as_str().as_bytes_vec()
                    } else {
                        copy_bytes(&headers[i].value)
                    };
                    set_header(&mut passed, name, value);
                }
            },
            None => {},
        }
    }
    assert(views.take(headers@.len() as int) =~= views);
    passed
}

/// A name in lower case that a header may have stays as it is.
pub proof fn lower_case_name_is_kept(name: Seq<char>)
    requires
        valid_header_name(name),
        forall|i: int| 0 <= i < name.len() ==> !('A' <= #[trigger] name[i] <= 'Z'),
    ensures
        header_name_text(name) == Some(name),
{
    assert(name.map_values(|c: char| crate::text::ascii_lower(c)) =~= name);
}

/// Where the backend's answer gives its content length, the answer to the client gives that of the
/// new body.
pub proof fn content_length_is_renewed(headers: Seq<HeaderView>, body_len: nat, place: int)
    requires
        0 <= place < headers.len(),
        headers[place].name == "content-length"@,
        valid_header_value(headers[place].value),
    ensures
        passed_headers(headers, body_len).contains(
            HeaderView {
                name: "content-length"@,
                value: vstd::utf8::encode_utf8(crate::text::decimal(body_len as int)),
            },
        ),
    decreases headers.len(),
{
    let renewed = HeaderView {
        name: "content-length"@,
        value: vstd::utf8::encode_utf8(crate::text::decimal(body_len as int)),
    };
    let before = passed_headers(headers.drop_last(), body_len);
    let after = passed_headers(headers, body_len);
    if place == headers.len() - 1 {
        reveal_strlit("content-length");
        lower_case_name_is_kept("content-length"@);
        assert(passed_header(headers.last(), body_len) == Some(renewed));
        if has_header(before, renewed.name) {
            let i = choose|i: int| 0 <= i < before.len() && (#[trigger] before[i]).name == renewed.name;
            assert(after[i] == renewed);
        } else {
            assert(after[before.len() as int] == renewed);
        }
    } else {
        content_length_is_renewed(headers.drop_last(), body_len, place);
        let i = before.index_of(renewed);
        assert(before[i] == renewed);
        if let Some(header) = passed_header(headers.last(), body_len) {
            assert(header.name == renewed.name ==> header == renewed);
            assert(after[i] == renewed);
        }
    }
}

/// The answer to the client has each header once, and its content length, where it gives one, is
/// that of the new body.
pub proof fn passed_headers_fit_body(headers: Seq<HeaderView>, body_len: nat)
    ensures
        forall|i: int, j: int|
            0 <= i < j < passed_headers(headers, body_len).len() ==> (#[trigger] passed_headers(
                headers,
                body_len,
            )[i]).name != (#[trigger] passed_headers(headers, body_len)[j]).name,
        forall|i: int|
            0 <= i < passed_headers(headers, body_len).len() && (#[trigger] passed_headers(
                headers,
                body_len,
            )[i]).name == "content-length"@ ==> passed_headers(headers, body_len)[i].value
                == vstd::utf8::encode_utf8(crate::text::decimal(body_len as int)),
    decreases headers.len(),
{
    if headers.len() > 0 {
        passed_headers_fit_body(headers.drop_last(), body_len);
        let before = passed_headers(headers.drop_last(), body_len);
        if let Some(header) = passed_header(headers.last(), body_len) {
            let after = with_header(before, header);
            assert(forall|i: int| 0 <= i < before.len() ==> (#[trigger] after[i]).name == before[i].name);
        }
    }
}

/// The authorization is the value of the first header with that name, wherever it stands, as long
/// as its bytes may stand in a header; without such a header there is none.
pub proof fn first_authorization_is_found(headers: Seq<HeaderView>, place: int)
    requires
        0 <= place <= headers.len(),
        forall|i: int| 0 <= i < place ==> (#[trigger] headers[i]).name != "authorization"@,
        place < headers.len() ==> headers[place].name == "authorization"@,
    ensures
        authorization_of(headers) == if place < headers.len() && forall|i: int|
            0 <= i < headers[place].value.len() ==> #[trigger] headers[place].value[i] == 9 || (
            headers[place].value[i] >= 32 && headers[place].value[i] != 127) {
            Some(headers[place].value)
        } else {
            None
        },
{
    first_value_is_found(headers, "authorization"@, place);
}

proof fn first_value_is_found(headers: Seq<HeaderView>, name: Seq<char>, place: int)
    requires
        0 <= place <= headers.len(),
        forall|i: int| 0 <= i < place ==> (#[trigger] headers[i]).name != name,
        place < headers.len() ==> headers[place].name == name,
    ensures
        first_value(headers, name) == if place < headers.len() {
            Some(headers[place].value)
        } else {
            None
        },
    decreases headers.len(),
{
    if headers.len() > 0 && place > 0 {
        let rest = headers.drop_first();
        assert(headers[0].name != name);
        assert forall|i: int| 0 <= i < place - 1 implies (#[trigger] rest[i]).name != name by {
            assert(rest[i] == headers[i + 1]);
        }
        first_value_is_found(rest, name, place - 1);
    }
}

/// A request to the backend says that its body is JSON where it has one, hands on the
/// authorization where there is one, and has no other header.
pub proof fn requests_carry_content_type_and_authorization(
    has_body: bool,
    authorization: Option<Seq<u8>>,
    header: HeaderView,
)
    ensures
        request_headers(has_body, authorization).contains(header) <==> (has_body && header.name
            == "content-type"@ && header.value == vstd::utf8::encode_utf8("application/json"@)) || (
        header.name == "authorization"@ && authorization == Some(header.value)),
{
    let sent = request_headers(has_body, authorization);
    if has_body {
        assert(sent[0] == json_content_type());
    }
    if let Some(value) = authorization {
        assert(sent.last() == (HeaderView { name: "authorization"@, value }));
        assert(sent.contains(sent[sent.len() - 1]));
    }
    if has_body {
        assert(sent.contains(sent[0]));
    }
}

/// Every header of the backend's answer goes on to the client under its name in small letters,
/// where name and value may stand in a header and none of that name follows it: with its own
/// value, or for the content length with that of the new body.
pub proof fn last_header_of_a_name_is_passed_on(
    headers: Seq<HeaderView>,
    body_len: nat,
    place: int,
    name: Seq<char>,
)
    requires
        0 <= place < headers.len(),
        1 <= headers[place].name.len() <= 65535,
        forall|i: int|
            0 <= i < headers[place].name.len() ==> header_name_char(#[trigger] headers[place].name[i]),
        name == headers[place].name.map_values(|c: char| crate::text::ascii_lower(c)),
        forall|i: int|
            0 <= i < headers[place].value.len() ==> #[trigger] headers[place].value[i] == 9 || (
            headers[place].value[i] >= 32 && headers[place].value[i] != 127),
        forall|i: int|
            place < i < headers.len() ==> (#[trigger] headers[i]).name.map_values(
                |c: char| crate::text::ascii_lower(c),
            ) != name,
    ensures
        passed_headers(headers, body_len).contains(
            HeaderView {
                name,
                value: if name == "content-length"@ {
                    vstd::utf8::encode_utf8(crate::text::decimal(body_len as int))
                } else {
                    headers[place].value
                },
            },
        ),
    decreases headers.len(),
{
    let wanted = HeaderView {
        name,
        value: if name == "content-length"@ {
            vstd::utf8::encode_utf8(crate::text::decimal(body_len as int))
        } else {
            headers[place].value
        },
    };
    let before = passed_headers(headers.drop_last(), body_len);
    let after = passed_headers(headers, body_len);
    if place == headers.len() - 1 {
        assert(valid_header_name(headers[place].name));
        assert(valid_header_value(headers[place].value));
        assert(passed_header(headers.last(), body_len) == Some(wanted));
        if has_header(before, name) {
            let i = choose|i: int| 0 <= i < before.len() && (#[trigger] before[i]).name == name;
            assert(after[i] == wanted);
        } else {
            assert(after[before.len() as int] == wanted);
        }
    } else {
        let front = headers.drop_last();
        assert forall|i: int| place < i < front.len() implies (#[trigger] front[i]).name.map_values(
            |c: char| crate::text::ascii_lower(c),
        ) != name by {
            assert(front[i] == headers[i]);
        }
        last_header_of_a_name_is_passed_on(front, body_len, place, name);
        let i = before.index_of(wanted);
        assert(before[i] == wanted);
        assert(headers[headers.len() - 1].name.map_values(|c: char| crate::text::ascii_lower(c)) != name);
        if let Some(header) = passed_header(headers.last(), body_len) {
            assert(header.name != name);
            assert(after[i] == wanted);
        }
    }
}

/// No header goes to the client that the backend's answer did not have: each has the name of one
/// of its headers in small letters, with its value or the length of the new body.
pub proof fn passed_headers_come_from_backend(headers: Seq<HeaderView>, body_len: nat, passed: HeaderView)
    requires
        passed_headers(headers, body_len).contains(passed),
    ensures
        exists|i: int|
            0 <= i < headers.len() && passed.name == (#[trigger] headers[i]).name.map_values(
                |c: char| crate::text::ascii_lower(c),
            ) && valid_header_name(headers[i].name) && valid_header_value(headers[i].value)
                && passed.value == if passed.name == "content-length"@ {
                vstd::utf8::encode_utf8(crate::text::decimal(body_len as int))
            } else {
                headers[i].value
            },
    decreases headers.len(),
{
    if headers.len() > 0 {
        let front = headers.drop_last();
        let before = passed_headers(front, body_len);
        let after = passed_headers(headers, body_len);
        let k = after.index_of(passed);
        assert(after[k] == passed);
        let last = passed_header(headers.last(), body_len);
        if last == Some(passed) {
            assert(headers[headers.len() - 1] == headers.last());
        } else {
            assert(before[k] == passed);
            assert(before.contains(passed));
            passed_headers_come_from_backend(front, body_len, passed);
            let i = choose|i: int|
                0 <= i < front.len() && passed.name == (#[trigger] front[i]).name.map_values(
                    |c: char| crate::text::ascii_lower(c),
                ) && valid_header_name(front[i].name) && valid_header_value(front[i].value)
                    && passed.value == if passed.name == "content-length"@ {
                    vstd::utf8::encode_utf8(crate::text::decimal(body_len as int))
                } else {
                    front[i].value
                };
            assert(headers[i] == front[i]);
        }
    }
}

/// The characters that may stand in the name of a header are letters, digits and these signs.
pub proof fn header_names_are_tokens(c: char)
    ensures
        header_name_char(c)
            <==> "!#$%&'*+-.^_`|~0123456789ABCDEFGHIJKLMNOPQRSTUVWXYZabcdefghijklmnopqrstuvwxyz"@.contains(c),
{
    reveal_strlit("!#$%&'*+-.^_`|~0123456789ABCDEFGHIJKLMNOPQRSTUVWXYZabcdefghijklmnopqrstuvwxyz");
    let signs = "!#$%&'*+-.^_`|~0123456789ABCDEFGHIJKLMNOPQRSTUVWXYZabcdefghijklmnopqrstuvwxyz"@;
    if '0' <= c <= '9' {
        assert(signs[15 + (c as int - '0' as int)] == c);
    } else if 'A' <= c <= 'Z' {
        assert(signs[25 + (c as int - 'A' as int)] == c);
    } else if 'a' <= c <= 'z' {
        assert(signs[51 + (c as int - 'a' as int)] == c);
    } else if header_name_char(c) {
        assert(signs[0] == '!' && signs[1] == '#' && signs[2] == '$' && signs[3] == '%' && signs[4] == '&'
            && signs[5] == '\'' && signs[6] == '*' && signs[7] == '+' && signs[8] == '-' && signs[9]
            == '.' && signs[10] == '^' && signs[11] == '_' && signs[12] == '`' && signs[13] == '|'
            && signs[14] == '~');
    }
}

/// What headers say is said of all of them, at their places and whole.
pub proof fn headers_are_seen_whole(headers: Seq<Header>, bytes: Option<Vec<u8>>)
    ensures
        header_views(headers).len() == headers.len(),
        forall|i: int|
            0 <= i < headers.len() ==> (#[trigger] header_views(headers)[i]).name == headers[i].name@
                && header_views(headers)[i].value == headers[i].value@,
        bytes is None <==> optional_bytes(bytes) is None,
        bytes matches Some(value) ==> optional_bytes(bytes) == Some(value@),
{
}

/// A request to the backend has no header twice.
pub proof fn request_headers_are_counted(has_body: bool, authorization: Option<Seq<u8>>)
    ensures
        request_headers(has_body, authorization).len() == (if has_body { 1int } else { 0 }) + (
        if authorization is Some { 1int } else { 0 }),
{
}

} // verus!
