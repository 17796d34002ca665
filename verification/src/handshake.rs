use crate::config::header_texts;
use tungstenite::client::IntoClientRequest;
use tungstenite::http::header::{HeaderName, HeaderValue, InvalidHeaderName, InvalidHeaderValue, MaxSizeReached};
use tungstenite::http::Request;
use vstd::prelude::*;
use vstd::utf8::{encode_utf8, encode_utf8_decode_utf8};

verus! {

/// The reasons for which tungstenite gives up. They are passed on, never looked into.
#[verifier::external_type_specification]
#[verifier::external_body]
pub struct ExError(tungstenite::Error);

/// An HTTP request. What it holds is told by [request_target] and [request_headers].
#[verifier::external_type_specification]
#[verifier::external_body]
#[verifier::reject_recursive_types(T)]
pub struct ExRequest<T>(Request<T>);

/// A buffer with the name of a header. What it holds is told by [header_name_bytes].
#[verifier::external_type_specification]
#[verifier::external_body]
pub struct ExHeaderName(HeaderName);

/// A buffer with the value of a header. What it holds is told by [header_value_bytes].
#[verifier::external_type_specification]
#[verifier::external_body]
pub struct ExHeaderValue(HeaderValue);

/// Says no more than that a header's name is malformed.
#[verifier::external_type_specification]
#[verifier::external_body]
pub struct ExInvalidHeaderName(InvalidHeaderName);

/// Says no more than that a header's value is malformed.
#[verifier::external_type_specification]
#[verifier::external_body]
pub struct ExInvalidHeaderValue(InvalidHeaderValue);

/// Says no more than that a request has no room for another header.
#[verifier::external_type_specification]
#[verifier::external_body]
pub struct ExMaxSizeReached(MaxSizeReached);

/// The characters of the uri that `request` asks for.
pub uninterp spec fn request_target(request: Request<()>) -> Seq<char>;

/// The headers of `request`: the bytes of each name, in lower case, with the bytes of the values
/// under that name, in order.
pub uninterp spec fn request_headers(request: Request<()>) -> Map<Seq<u8>, Seq<Seq<u8>>>;

/// The bytes of a header's name, in lower case.
pub uninterp spec fn header_name_bytes(name: HeaderName) -> Seq<u8>;

/// The bytes of a header's value.
pub uninterp spec fn header_value_bytes(value: HeaderValue) -> Seq<u8>;

/// What [IntoClientRequest::into_client_request] takes from `url`: the uri that the request asks
/// for and the host that it names, or `None` where `url` is no uri with a host.
pub uninterp spec fn client_request(url: Seq<char>) -> Option<(Seq<char>, Seq<u8>)>;

/// Whether `byte` may stand in the name of a header: a `tchar` of RFC 7230.
pub open spec fn is_name_byte(byte: u8) -> bool {
    ||| '0' as u8 <= byte <= '9' as u8
    ||| 'A' as u8 <= byte <= 'Z' as u8
    ||| 'a' as u8 <= byte <= 'z' as u8
    ||| byte == '!' as u8 || byte == '#' as u8 || byte == '$' as u8 || byte == '%' as u8
    ||| byte == '&' as u8 || byte == '\'' as u8 || byte == '*' as u8 || byte == '+' as u8
    ||| byte == '-' as u8 || byte == '.' as u8 || byte == '^' as u8 || byte == '_' as u8
    ||| byte == '`' as u8 || byte == '|' as u8 || byte == '~' as u8
}

/// Whether `bytes` are the name of a header.
pub open spec fn is_header_name(bytes: Seq<u8>) -> bool {
    &&& 1 <= bytes.len() <= 0xffff
    &&& forall|i: int| 0 <= i < bytes.len() ==> is_name_byte(#[trigger] bytes[i])
}

/// `bytes` with their ASCII letters in lower case.
pub open spec fn lowercase_bytes(bytes: Seq<u8>) -> Seq<u8> {
    Seq::new(
        bytes.len(),
        |i: int|
            if 'A' as u8 <= bytes[i] <= 'Z' as u8 {
                (bytes[i] + 32) as u8
            } else {
                bytes[i]
            },
    )
}

/// Whether `bytes` are the value of a header: no control characters but the tab.
pub open spec fn is_header_value(bytes: Seq<u8>) -> bool {
    forall|i: int| 0 <= i < bytes.len() ==> (#[trigger] bytes[i] >= 32 && bytes[i] != 127) || bytes[i] == 9
}

/// [HeaderName::from_bytes] takes one or more `tchar`s, up to a limit, and puts them in lower
/// case.
pub assume_specification[ HeaderName::from_bytes ](src: &[u8]) -> (result: Result<
    HeaderName,
    InvalidHeaderName,
>)
    ensures
        result is Ok <==> is_header_name(src@),
        result matches Ok(name) ==> header_name_bytes(name) == lowercase_bytes(src@),
;

/// [HeaderValue::from_str] takes text without control characters other than the tab, and keeps
/// its bytes. Text that is not ASCII is taken too.
pub assume_specification[ HeaderValue::from_str ](src: &str) -> (result: Result<
    HeaderValue,
    InvalidHeaderValue,
>)
    ensures
        result is Ok <==> is_header_value(encode_utf8(src@)),
        result matches Ok(value) ==> header_value_bytes(value) == encode_utf8(src@),
;

/// The headers of a request for a websocket on `host`, of which `key` is drawn at random.
pub open spec fn opening_headers(host: Seq<u8>, key: Seq<u8>) -> Map<Seq<u8>, Seq<Seq<u8>>> {
    Map::empty().insert(encode_utf8("host"@), seq![host]).insert(
        encode_utf8("connection"@),
        seq![encode_utf8("Upgrade"@)],
    ).insert(encode_utf8("upgrade"@), seq![encode_utf8("websocket"@)]).insert(
        encode_utf8("sec-websocket-version"@),
        seq![encode_utf8("13"@)],
    ).insert(encode_utf8("sec-websocket-key"@), seq![key])
}

/// Whether `headers` are those of a request for a websocket on `host`, with any key.
pub open spec fn are_opening_headers(headers: Map<Seq<u8>, Seq<Seq<u8>>>, host: Seq<u8>) -> bool {
    exists|key: Seq<u8>| key.len() == 24 && headers == #[trigger] opening_headers(host, key)
}

/// [IntoClientRequest::into_client_request] makes a request for a websocket from a uri with a
/// host. It has five headers, and the key among them is drawn at random.
///
/// Which uris it takes, and what it reads from them, is told by [client_request]. Why it refuses
/// a url is not stated.
#[verifier::external_body]
fn into_client_request(url: &str) -> (result: Result<Request<()>, tungstenite::Error>)
    ensures
        result is Ok <==> client_request(url@) is Some,
        result matches Ok(request) ==> request_target(request) == (client_request(url@)->0).0,
        result matches Ok(request) ==> are_opening_headers(
            request_headers(request),
            (client_request(url@)->0).1,
        ),
{
    url.into_client_request()
}

/// How many headers of different names a request has room for at any rate.
pub const HEADER_ROOM: usize = 6553;

/// [HeaderMap::try_insert][tungstenite::http::HeaderMap::try_insert] puts `value` in the place of
/// all values under `name`, and returns the first of those.
///
/// It refuses where the table that it keeps would have to grow beyond 32768 places, and then
/// changes nothing. The table is grown when three quarters of it are full, or already a fifth of
/// it where many names hash alike. So with no more than [HEADER_ROOM] headers it never refuses.
#[verifier::external_body]
fn try_insert(request: &mut Request<()>, name: HeaderName, value: HeaderValue) -> (result: Result<
    Option<HeaderValue>,
    MaxSizeReached,
>)
    ensures
        request_target(*final(request)) == request_target(*old(request)),
        request_headers(*final(request)).dom().finite(),
        request_headers(*old(request)).dom().len() <= HEADER_ROOM ==> result is Ok,
        result is Ok ==> request_headers(*final(request)) == request_headers(*old(request)).insert(
            header_name_bytes(name),
            seq![header_value_bytes(value)],
        ),
        result is Err ==> request_headers(*final(request)) == request_headers(*old(request)),
        result matches Ok(previous) ==> (previous is Some
            <==> request_headers(*old(request)).contains_key(header_name_bytes(name))),
        result matches Ok(Some(previous)) ==> header_value_bytes(previous) == request_headers(
            *old(request),
        )[header_name_bytes(name)][0],
{
    request.headers_mut().try_insert(name, value)
}

/// Whether `header` is the name and the value of a header.
pub open spec fn is_well_formed(header: (Seq<char>, Seq<char>)) -> bool {
    is_header_name(encode_utf8(header.0)) && is_header_value(encode_utf8(header.1))
}

/// `headers` with those of `added` put in one after the other. A later value replaces an earlier
/// one of the same name. What is not a name and a value is passed over.
pub open spec fn with_headers(
    headers: Map<Seq<u8>, Seq<Seq<u8>>>,
    added: Seq<(Seq<char>, Seq<char>)>,
) -> Map<Seq<u8>, Seq<Seq<u8>>>
    decreases added.len(),
{
    if added.len() == 0 {
        headers
    } else {
        let before = with_headers(headers, added.drop_last());
        let (name, value) = added.last();
        if is_well_formed((name, value)) {
            before.insert(lowercase_bytes(encode_utf8(name)), seq![encode_utf8(value)])
        } else {
            before
        }
    }
}

/// Headers that are put in never make those that were there fewer.
proof fn lemma_with_headers_grows(
    headers: Map<Seq<u8>, Seq<Seq<u8>>>,
    added: Seq<(Seq<char>, Seq<char>)>,
    count: int,
)
    requires
        0 <= count <= added.len(),
        with_headers(headers, added.take(count)).dom().finite(),
    ensures
        with_headers(headers, added).dom().finite(),
        with_headers(headers, added.take(count)).dom().len() <= with_headers(headers, added).dom().len(),
    decreases added.len(),
{
    if count == added.len() {
        assert(added.take(count) =~= added);
    } else {
        assert(added.drop_last().take(count) =~= added.take(count));
        lemma_with_headers_grows(headers, added.drop_last(), count);
    }
}

/// Why there is no request to open a connection with.
#[derive(Debug)]
pub enum HandshakeError {
    /// The url is not one of a websocket.
    Url(tungstenite::Error),
    /// There are too many headers for one request.
    TooManyHeaders,
}

/// Puts `headers` into `request` one after the other, passing over those that are malformed.
pub fn add_headers(request: Request<()>, headers: &Vec<(String, String)>) -> (result: Result<
    Request<()>,
    HandshakeError,
>)
    ensures
        result matches Ok(extended) ==> {
            &&& request_target(extended) == request_target(request)
            &&& request_headers(extended) == with_headers(
                request_headers(request),
                header_texts(headers@),
            )
        },
        result matches Err(error) ==> {
            &&& error is TooManyHeaders
            &&& with_headers(request_headers(request), header_texts(headers@)).dom().len() > HEADER_ROOM
        },
{
    let ghost original = request_headers(request);
    let ghost added = header_texts(headers@);
    let mut extended = request;
    let mut i: usize = 0;
    assert(added.take(0) =~= Seq::empty());
    while i < headers.len()
        invariant
            i <= headers@.len(),
            added == header_texts(headers@),
            original == request_headers(request),
            request_target(extended) == request_target(request),
            request_headers(extended) == with_headers(original, added.take(i as int)),
        decreases headers@.len() - i,
    {
        let header = &headers[i];
        let ghost before = added.take(i as int);
        i += 1;
        proof {
            assert(added.take(i as int).drop_last() =~= before);
            assert(added.take(i as int).last() == (header.0@, header.1@));
        }
        match HeaderName::from_bytes(header.0.as_str().as_bytes()) {
            Ok(name) => match HeaderValue::from_str(header.1.as_str()) {
                Ok(value) => match try_insert(&mut extended, name, value) {
                    Ok(_) => {},
                    Err(_) => {
                        proof {
                            lemma_with_headers_grows(original, added, i - 1);
                        }
                        return Err(HandshakeError::TooManyHeaders);
                    },
                },
                Err(_) => {},
            },
            Err(_) => {},
        }
    }
    assert(added.take(headers@.len() as int) =~= added);
    Ok(extended)
}

/// A header that is passed over, by its place in the list, with what is malformed about it.
#[derive(Debug, Clone, Copy, PartialEq, Eq)]
pub enum PassedOver {
    /// The name is malformed.
    Name(usize),
    /// The name is well formed, the value is not.
    Value(usize),
}

/// The headers that are passed over, in order.
pub open spec fn passed_over(headers: Seq<(Seq<char>, Seq<char>)>) -> Seq<PassedOver>
    decreases headers.len(),
{
    if headers.len() == 0 {
        Seq::empty()
    } else {
        let before = passed_over(headers.drop_last());
        let at = (headers.len() - 1) as usize;
        if !is_header_name(encode_utf8(headers.last().0)) {
            before.push(PassedOver::Name(at))
        } else if !is_header_value(encode_utf8(headers.last().1)) {
            before.push(PassedOver::Value(at))
        } else {
            before
        }
    }
}

/// Finds the headers that [add_headers] passes over.
pub fn find_passed_over(headers: &Vec<(String, String)>) -> (found: Vec<PassedOver>)
    ensures
        found@ == passed_over(header_texts(headers@)),
{
    let ghost listed = header_texts(headers@);
    let mut found: Vec<PassedOver> = Vec::new();
    let mut i: usize = 0;
    assert(listed.take(0) =~= Seq::empty());
    while i < headers.len()
        invariant
            i <= headers@.len(),
            listed == header_texts(headers@),
            found@ == passed_over(listed.take(i as int)),
        decreases headers@.len() - i,
    {
        let header = &headers[i];
        proof {
            assert(listed.take(i + 1).drop_last() =~= listed.take(i as int));
            assert(listed.take(i + 1).last() == (header.0@, header.1@));
        }
        match HeaderName::from_bytes(header.0.as_str().as_bytes()) {
            Ok(_) => match HeaderValue::from_str(header.1.as_str()) {
                Ok(_) => {},
                Err(_) => found.push(PassedOver::Value(i)),
            },
            Err(_) => found.push(PassedOver::Name(i)),
        }
        i += 1;
    }
    assert(listed.take(headers@.len() as int) =~= listed);
    found
}

/// Whether `request` asks for a websocket at `url` with `headers` besides those that every such
/// request has.
pub open spec fn is_request_for(
    request: Request<()>,
    url: Seq<char>,
    headers: Seq<(Seq<char>, Seq<char>)>,
) -> bool {
    &&& client_request(url) is Some
    &&& request_target(request) == (client_request(url)->0).0
    &&& exists|key: Seq<u8>|
        key.len() == 24 && request_headers(request) == with_headers(
            #[trigger] opening_headers((client_request(url)->0).1, key),
            headers,
        )
}

/// The names of the headers in a request for a websocket on `host`, with `headers` besides its
/// own.
pub open spec fn header_names(host: Seq<u8>, headers: Seq<(Seq<char>, Seq<char>)>) -> Set<Seq<u8>> {
    with_headers(opening_headers(host, Seq::empty()), headers).dom()
}

/// Makes the request that opens a websocket at `url`, with `headers` besides its own.
pub fn open_request(url: &str, headers: &Vec<(String, String)>) -> (result: Result<
    Request<()>,
    HandshakeError,
>)
    ensures
        result matches Ok(request) ==> is_request_for(request, url@, header_texts(headers@)),
        result matches Err(error) ==> (error is Url <==> client_request(url@) is None),
        result matches Err(HandshakeError::TooManyHeaders) ==> header_names(
            (client_request(url@)->0).1,
            header_texts(headers@),
        ).len() > HEADER_ROOM,
{
    match into_client_request(url) {
        Ok(request) => {
            let ghost host = (client_request(url@)->0).1;
            let ghost key = choose|key: Seq<u8>|
                key.len() == 24 && request_headers(request) == #[trigger] opening_headers(host, key);
            proof {
                lemma_with_headers_names(
                    opening_headers(host, key),
                    opening_headers(host, Seq::empty()),
                    header_texts(headers@),
                );
            }
            add_headers(request, headers)
        },
        Err(error) => Err(HandshakeError::Url(error)),
    }
}

/// Which names end up in a request depends on the names alone.
proof fn lemma_with_headers_names(
    left: Map<Seq<u8>, Seq<Seq<u8>>>,
    right: Map<Seq<u8>, Seq<Seq<u8>>>,
    added: Seq<(Seq<char>, Seq<char>)>,
)
    requires
        left.dom() == right.dom(),
    ensures
        with_headers(left, added).dom() == with_headers(right, added).dom(),
    decreases added.len(),
{
    if added.len() > 0 {
        lemma_with_headers_names(left, right, added.drop_last());
    }
}

/// A header that is malformed leaves a request as if it had not been given.
pub proof fn malformed_header_is_passed_over(
    headers: Map<Seq<u8>, Seq<Seq<u8>>>,
    before: Seq<(Seq<char>, Seq<char>)>,
    malformed: (Seq<char>, Seq<char>),
    after: Seq<(Seq<char>, Seq<char>)>,
)
    requires
        !is_well_formed(malformed),
    ensures
        with_headers(headers, before.push(malformed) + after) == with_headers(headers, before + after),
    decreases after.len(),
{
    if after.len() == 0 {
        assert(before.push(malformed) + after =~= before.push(malformed));
        assert(before.push(malformed).drop_last() =~= before);
        assert(before + after =~= before);
    } else {
        malformed_header_is_passed_over(headers, before, malformed, after.drop_last());
        assert((before.push(malformed) + after).drop_last() =~= before.push(malformed) + after.drop_last());
        assert((before + after).drop_last() =~= before + after.drop_last());
    }
}

/// Of the well-formed headers of one name, the last one given stands alone in the request,
/// whatever was there before.
pub proof fn last_header_of_a_name_stands(
    headers: Map<Seq<u8>, Seq<Seq<u8>>>,
    before: Seq<(Seq<char>, Seq<char>)>,
    header: (Seq<char>, Seq<char>),
    after: Seq<(Seq<char>, Seq<char>)>,
)
    requires
        is_well_formed(header),
        forall|i: int|
            0 <= i < after.len() && is_well_formed(#[trigger] after[i]) ==> lowercase_bytes(
                encode_utf8(after[i].0),
            ) != lowercase_bytes(encode_utf8(header.0)),
    ensures
        ({
            let name = lowercase_bytes(encode_utf8(header.0));
            let result = with_headers(headers, before.push(header) + after);
            &&& result.contains_key(name)
            &&& result[name] == seq![encode_utf8(header.1)]
        }),
    decreases after.len(),
{
    if after.len() == 0 {
        assert(before.push(header) + after =~= before.push(header));
    } else {
        assert forall|i: int|
            0 <= i < after.drop_last().len() && is_well_formed(
                #[trigger] after.drop_last()[i],
            ) implies lowercase_bytes(encode_utf8(after.drop_last()[i].0)) != lowercase_bytes(
            encode_utf8(header.0),
        ) by {
            assert(after.drop_last()[i] == after[i]);
        }
        last_header_of_a_name_stands(headers, before, header, after.drop_last());
        assert((before.push(header) + after).drop_last() =~= before.push(header) + after.drop_last());
        assert((before.push(header) + after).last() == after[after.len() - 1]);
    }
}

/// A header's name has between 1 and 65535 bytes. They are letters, digits and marks of ASCII:
/// no space, no control character, none of the separators and nothing beyond ASCII.
pub proof fn names_are_made_of_token_bytes(name: &[u8], result: Result<HeaderName, InvalidHeaderName>)
    requires
        call_ensures(HeaderName::from_bytes, (name,), result),
    ensures
        result is Ok <==> {
            &&& 0 < name@.len() < 65536
            &&& forall|i: int|
                0 <= i < name@.len() ==> {
                    ||| #[trigger] name@[i] == 33
                    ||| 35 <= name@[i] <= 39
                    ||| name@[i] == 42
                    ||| name@[i] == 43
                    ||| name@[i] == 45
                    ||| name@[i] == 46
                    ||| 48 <= name@[i] <= 57
                    ||| 65 <= name@[i] <= 90
                    ||| 94 <= name@[i] <= 122
                    ||| name@[i] == 124
                    ||| name@[i] == 126
                }
        },
        result matches Ok(taken) ==> {
            &&& header_name_bytes(taken).len() == name@.len()
            &&& forall|i: int|
                0 <= i < name@.len() ==> #[trigger] header_name_bytes(taken)[i] == if 65 <= name@[i] <= 90 {
                    name@[i] + 32
                } else {
                    name@[i] as int
                }
        },
{
    if is_header_name(name@) {
        assert forall|i: int| 0 <= i < name@.len() implies {
            ||| #[trigger] name@[i] == 33
            ||| 35 <= name@[i] <= 39
            ||| name@[i] == 42
            ||| name@[i] == 43
            ||| name@[i] == 45
            ||| name@[i] == 46
            ||| 48 <= name@[i] <= 57
            ||| 65 <= name@[i] <= 90
            ||| 94 <= name@[i] <= 122
            ||| name@[i] == 124
            ||| name@[i] == 126
        } by {
            assert(is_name_byte(name@[i]));
        }
    }
}

/// A header's value is refused exactly where a control character other than the tab stands in it,
/// however long it is, and is kept byte by byte.
pub proof fn values_have_no_control_characters(value: &str, result: Result<HeaderValue, InvalidHeaderValue>)
    requires
        call_ensures(HeaderValue::from_str, (value,), result),
    ensures
        result is Err <==> exists|i: int|
            0 <= i < encode_utf8(value@).len() && {
                ||| #[trigger] encode_utf8(value@)[i] < 9
                ||| 9 < encode_utf8(value@)[i] < 32
                ||| encode_utf8(value@)[i] == 127
            },
        result matches Ok(taken) ==> header_value_bytes(taken) == encode_utf8(value@),
{
}

/// Whether the header at `at` has a name and a value that are taken.
pub open spec fn is_taken(headers: Seq<(String, String)>, at: int) -> bool {
    &&& is_header_name(encode_utf8(headers[at].0@))
    &&& is_header_value(encode_utf8(headers[at].1@))
}

/// The name of the header at `at` in a request.
pub open spec fn name_in_request(headers: Seq<(String, String)>, at: int) -> Seq<u8> {
    lowercase_bytes(encode_utf8(headers[at].0@))
}

/// Whether the header at `at` is the last one of its name that is taken.
pub open spec fn is_last_of_its_name(headers: Seq<(String, String)>, at: int) -> bool {
    &&& 0 <= at < headers.len()
    &&& is_taken(headers, at)
    &&& forall|later: int|
        at < later < headers.len() && #[trigger] is_taken(headers, later) ==> name_in_request(headers, later)
            != name_in_request(headers, at)
}

/// Whether a header under `name` is taken.
pub open spec fn is_named(headers: Seq<(String, String)>, name: Seq<u8>) -> bool {
    exists|at: int|
        0 <= at < headers.len() && #[trigger] is_taken(headers, at) && name_in_request(headers, at) == name
}

/// What headers that are put in make of those that were there.
proof fn lemma_with_headers_is_told(
    headers: Map<Seq<u8>, Seq<Seq<u8>>>,
    added: Seq<(String, String)>,
    at: int,
    name: Seq<u8>,
)
    ensures
        is_last_of_its_name(added, at) ==> {
            &&& with_headers(headers, header_texts(added)).contains_key(name_in_request(added, at))
            &&& with_headers(headers, header_texts(added))[name_in_request(added, at)] == seq![
                encode_utf8(added[at].1@),
            ]
        },
        !is_named(added, name) ==> {
            &&& with_headers(headers, header_texts(added)).contains_key(name) <==> headers.contains_key(name)
            &&& headers.contains_key(name) ==> with_headers(headers, header_texts(added))[name]
                == headers[name]
        },
    decreases added.len(),
{
    let listed = header_texts(added);
    if is_last_of_its_name(added, at) {
        let before = listed.take(at);
        let after = listed.skip(at + 1);
        assert(before.push(listed[at]) + after =~= listed);
        assert forall|i: int| 0 <= i < after.len() && is_well_formed(#[trigger] after[i]) implies lowercase_bytes(
            encode_utf8(after[i].0),
        ) != lowercase_bytes(encode_utf8(listed[at].0)) by {
            assert(after[i] == listed[at + 1 + i]);
            assert(is_taken(added, at + 1 + i));
        }
        last_header_of_a_name_stands(headers, before, listed[at], after);
    }
    if !is_named(added, name) && added.len() > 0 {
        let fewer = added.drop_last();
        assert(header_texts(fewer) =~= listed.drop_last());
        if is_named(fewer, name) {
            let place = choose|place: int|
                0 <= place < fewer.len() && #[trigger] is_taken(fewer, place) && name_in_request(fewer, place)
                    == name;
            assert(is_taken(added, place));
            assert(name_in_request(added, place) == name);
        }
        lemma_with_headers_is_told(headers, fewer, at, name);
        if is_taken(added, added.len() - 1) {
            assert(name_in_request(added, added.len() - 1) != name);
        }
    }
}

/// A header stands in the request, alone and with its value, exactly where its name and its value
/// are taken and no later one of the same name is. What was in the request under another name
/// stays, nothing else comes in, and the uri is the same.
pub proof fn headers_that_are_taken_are_added(
    request: Request<()>,
    headers: &Vec<(String, String)>,
    extended: Request<()>,
    at: int,
    name: Seq<u8>,
)
    requires
        call_ensures(add_headers, (request, headers), Ok(extended)),
    ensures
        request_target(extended) == request_target(request),
        is_last_of_its_name(headers@, at) ==> {
            &&& request_headers(extended).contains_key(name_in_request(headers@, at))
            &&& request_headers(extended)[name_in_request(headers@, at)] == seq![
                encode_utf8(headers@[at].1@),
            ]
        },
        !is_named(headers@, name) ==> {
            &&& request_headers(extended).contains_key(name) <==> request_headers(request).contains_key(name)
            &&& request_headers(request).contains_key(name) ==> request_headers(extended)[name]
                == request_headers(request)[name]
        },
{
    lemma_with_headers_is_told(request_headers(request), headers@, at, name);
}

/// How many names a request for a websocket with other headers has at most.
pub(crate) proof fn lemma_few_names(headers: Map<Seq<u8>, Seq<Seq<u8>>>, added: Seq<(Seq<char>, Seq<char>)>)
    requires
        headers.dom().finite(),
    ensures
        with_headers(headers, added).dom().finite(),
        with_headers(headers, added).dom().len() <= headers.dom().len() + added.len(),
    decreases added.len(),
{
    if added.len() > 0 {
        lemma_few_names(headers, added.drop_last());
    }
}

/// Up to 6553 headers can always be added, those counted that the request has already.
pub proof fn few_headers_can_be_added(
    request: Request<()>,
    headers: &Vec<(String, String)>,
    result: Result<Request<()>, HandshakeError>,
)
    requires
        call_ensures(add_headers, (request, headers), result),
        request_headers(request).dom().finite(),
        request_headers(request).dom().len() + headers@.len() <= 6553,
    ensures
        result is Ok,
{
    lemma_few_names(request_headers(request), header_texts(headers@));
}

/// A request for a websocket comes of every url that names one, with up to 6548 headers besides
/// its own, and of no other url.
pub proof fn every_url_of_a_websocket_is_taken(
    url: &str,
    headers: &Vec<(String, String)>,
    result: Result<Request<()>, HandshakeError>,
)
    requires
        call_ensures(open_request, (url, headers), result),
    ensures
        client_request(url@) is None <==> (result matches Err(HandshakeError::Url(_))),
        client_request(url@) is Some && headers@.len() <= 6548 ==> result is Ok,
{
    let host = (client_request(url@)->0).1;
    lemma_few_names(opening_headers(host, Seq::empty()), header_texts(headers@));
}

/// Whether `request` asks for the uri of `url` and has these headers. The one at `at` is there where
/// it is taken and the last of its name. Under `name`, where none that was given is taken, there
/// is what every request for a websocket has: the host, `connection: Upgrade`,
/// `upgrade: websocket`, `sec-websocket-version: 13`, a key of 24 bytes, and nothing else.
pub open spec fn is_websocket_request(
    request: Request<()>,
    url: Seq<char>,
    headers: Seq<(String, String)>,
    at: int,
    name: Seq<u8>,
) -> bool {
    &&& request_target(request) == (client_request(url)->0).0
    &&& is_last_of_its_name(headers, at) ==> {
        &&& request_headers(request).contains_key(name_in_request(headers, at))
        &&& request_headers(request)[name_in_request(headers, at)] == seq![encode_utf8(headers[at].1@)]
    }
    &&& !is_named(headers, name) ==> {
        &&& request_headers(request).contains_key(name) <==> {
            ||| name == encode_utf8("host"@)
            ||| name == encode_utf8("connection"@)
            ||| name == encode_utf8("upgrade"@)
            ||| name == encode_utf8("sec-websocket-version"@)
            ||| name == encode_utf8("sec-websocket-key"@)
        }
        &&& name == encode_utf8("host"@) ==> request_headers(request)[name] == seq![
            (client_request(url)->0).1,
        ]
        &&& name == encode_utf8("connection"@) ==> request_headers(request)[name] == seq![
            encode_utf8("Upgrade"@),
        ]
        &&& name == encode_utf8("upgrade"@) ==> request_headers(request)[name] == seq![
            encode_utf8("websocket"@),
        ]
        &&& name == encode_utf8("sec-websocket-version"@) ==> request_headers(request)[name] == seq![
            encode_utf8("13"@),
        ]
        &&& name == encode_utf8("sec-websocket-key"@) ==> {
            &&& request_headers(request)[name].len() == 1
            &&& request_headers(request)[name][0].len() == 24
        }
    }
}

/// A request for a websocket asks for the uri of the url. It has the headers that were given and
/// that are taken, the last of each name, those that every such request has, and no others.
pub proof fn request_has_its_own_headers_and_those_given(
    url: &str,
    headers: &Vec<(String, String)>,
    request: Request<()>,
    at: int,
    name: Seq<u8>,
)
    requires
        call_ensures(open_request, (url, headers), Ok(request)),
    ensures
        is_websocket_request(request, url@, headers@, at, name),
{
    lemma_request_is_told(request, url@, headers@, at, name);
}

/// What a request for a websocket has.
pub(crate) proof fn lemma_request_is_told(
    request: Request<()>,
    url: Seq<char>,
    headers: Seq<(String, String)>,
    at: int,
    name: Seq<u8>,
)
    requires
        is_request_for(request, url, header_texts(headers)),
    ensures
        is_websocket_request(request, url, headers, at, name),
{
    let host = (client_request(url)->0).1;
    let key = choose|key: Seq<u8>|
        key.len() == 24 && request_headers(request) == with_headers(
            #[trigger] opening_headers(host, key),
            header_texts(headers),
        );
    lemma_with_headers_is_told(opening_headers(host, key), headers, at, name);
    lemma_own_names_differ();
}

/// The names of the headers that every request for a websocket has are different.
proof fn lemma_own_names_differ()
    ensures
        encode_utf8("host"@) != encode_utf8("connection"@),
        encode_utf8("host"@) != encode_utf8("upgrade"@),
        encode_utf8("host"@) != encode_utf8("sec-websocket-version"@),
        encode_utf8("host"@) != encode_utf8("sec-websocket-key"@),
        encode_utf8("connection"@) != encode_utf8("upgrade"@),
        encode_utf8("connection"@) != encode_utf8("sec-websocket-version"@),
        encode_utf8("connection"@) != encode_utf8("sec-websocket-key"@),
        encode_utf8("upgrade"@) != encode_utf8("sec-websocket-version"@),
        encode_utf8("upgrade"@) != encode_utf8("sec-websocket-key"@),
        encode_utf8("sec-websocket-version"@) != encode_utf8("sec-websocket-key"@),
{
    reveal_strlit("host");
    reveal_strlit("connection");
    reveal_strlit("upgrade");
    reveal_strlit("sec-websocket-version");
    reveal_strlit("sec-websocket-key");
    encode_utf8_decode_utf8("host"@);
    encode_utf8_decode_utf8("connection"@);
    encode_utf8_decode_utf8("upgrade"@);
    encode_utf8_decode_utf8("sec-websocket-version"@);
    encode_utf8_decode_utf8("sec-websocket-key"@);
}

/// The headers that are told to be passed over are exactly those that are not taken, each once, in
/// the order of the list, with what is wrong: the name, or else the value.
pub proof fn headers_that_are_not_taken_are_told(
    headers: &Vec<(String, String)>,
    found: Vec<PassedOver>,
    at: usize,
)
    requires
        call_ensures(find_passed_over, (headers,), found),
    ensures
        found@.contains(PassedOver::Name(at)) <==> at < headers@.len() && !is_header_name(
            encode_utf8(headers@[at as int].0@),
        ),
        found@.contains(PassedOver::Value(at)) <==> at < headers@.len() && is_header_name(
            encode_utf8(headers@[at as int].0@),
        ) && !is_header_value(encode_utf8(headers@[at as int].1@)),
        forall|i: int, j: int|
            0 <= i < j < found@.len() ==> place_of(#[trigger] found@[i]) < place_of(#[trigger] found@[j]),
{
    assert(headers@.len() == headers.len());
    lemma_passed_over_is_told(header_texts(headers@), at);
}

/// The place of a header that is passed over.
pub open spec fn place_of(passed_over: PassedOver) -> usize {
    match passed_over {
        PassedOver::Name(at) => at,
        PassedOver::Value(at) => at,
    }
}

/// Which headers are passed over.
proof fn lemma_passed_over_is_told(headers: Seq<(Seq<char>, Seq<char>)>, at: usize)
    requires
        headers.len() <= usize::MAX,
    ensures
        passed_over(headers).contains(PassedOver::Name(at)) <==> at < headers.len() && !is_header_name(
            encode_utf8(headers[at as int].0),
        ),
        passed_over(headers).contains(PassedOver::Value(at)) <==> at < headers.len() && is_header_name(
            encode_utf8(headers[at as int].0),
        ) && !is_header_value(encode_utf8(headers[at as int].1)),
        forall|i: int| 0 <= i < passed_over(headers).len() ==> place_of(#[trigger] passed_over(headers)[i])
            < headers.len(),
        forall|i: int, j: int|
            0 <= i < j < passed_over(headers).len() ==> place_of(#[trigger] passed_over(headers)[i]) < place_of(
                #[trigger] passed_over(headers)[j],
            ),
    decreases headers.len(),
{
    if headers.len() > 0 {
        let fewer = passed_over(headers.drop_last());
        lemma_passed_over_is_told(headers.drop_last(), at);
        let all = passed_over(headers);
        assert forall|item: PassedOver| all.contains(item) <==> fewer.contains(item) || (all.len() > fewer.len()
            && item == all.last()) by {
            if fewer.contains(item) {
                let i = choose|i: int| 0 <= i < fewer.len() && fewer[i] == item;
                assert(all[i] == item);
            }
            if all.contains(item) {
                let i = choose|i: int| 0 <= i < all.len() && all[i] == item;
                if i < fewer.len() {
                    assert(fewer[i] == item);
                }
            }
            if all.len() > fewer.len() && item == all.last() {
                assert(all[all.len() - 1] == item);
            }
        }
    }
}

} // verus!
