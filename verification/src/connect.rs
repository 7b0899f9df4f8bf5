//! Connecting to Jetstream: the subscription URL, the user agent header, and
//! the subscription update that opens the stream.

use crate::decimal::decimal_from_i64;
use crate::frame::MAX_MESSAGE_SIZE;
use http::header::{HeaderValue, InvalidHeaderValue};
use http::uri::{InvalidUri, Uri};
use std::str::FromStr;
use vstd::prelude::*;
use vstd::utf8::*;

verus! {

/// The error by which `http` refuses a URI.
#[verifier::external_type_specification]
#[verifier::external_body]
pub struct ExInvalidUri(InvalidUri);

/// The error by which `http` refuses a header value.
#[verifier::external_type_specification]
#[verifier::external_body]
pub struct ExInvalidHeaderValue(InvalidHeaderValue);

/// Whether `http` takes a text as a URI.
pub uninterp spec fn is_uri(text: Seq<char>) -> bool;

/// Calls `http::Uri::from_str`, for its verdict alone. The contract claims
/// that whether a text is refused depends on the text alone.
#[verifier::external_body]
fn check_uri(text: &str) -> (checked: Result<(), InvalidUri>)
    ensures
        checked is Ok <==> is_uri(text@),
{
    match Uri::from_str(text) {
        Ok(_) => Ok(()),
        Err(error) => Err(error),
    }
}

/// Whether a byte may stand in a header value: a tab, or anything that is no
/// ASCII control character.
pub open spec fn is_header_byte(byte: u8) -> bool {
    byte >= 32 && byte != 127 || byte == 9
}

/// Whether a text may be sent as a header value.
pub open spec fn is_header_text(text: Seq<char>) -> bool {
    forall|i: int|
        0 <= i < encode_utf8(text).len() ==> is_header_byte(#[trigger] encode_utf8(text)[i])
}

/// Calls `http::header::HeaderValue::from_str`, and gives the bytes of the
/// value. The contract claims that a text is taken if none of its bytes is a
/// control character other than a tab, that it is refused if one is, and that
/// the value consists of the bytes of the text.
#[verifier::external_body]
fn header_bytes(text: &str) -> (value: Result<Vec<u8>, InvalidHeaderValue>)
    ensures
        value is Ok <==> is_header_text(text@),
        value matches Ok(bytes) ==> bytes@ == encode_utf8(text@),
{
    match HeaderValue::from_str(text) {
        Ok(value) => Ok(value.as_bytes().to_vec()),
        Err(error) => Err(error),
    }
}

/// The part of the URL that asks for the stream to resume at a cursor.
pub open spec fn cursor_param(cursor: Option<i64>) -> Seq<char> {
    match cursor {
        Some(cursor) => "&cursor="@ + crate::decimal::decimal(cursor as int),
        None => Seq::empty(),
    }
}

/// The notation of a truth value in a URL.
pub open spec fn flag(value: bool) -> Seq<char> {
    if value {
        "true"@
    } else {
        "false"@
    }
}

/// The URL of a subscription.
pub open spec fn subscribe_url_text(
    hostname: Seq<char>,
    compression: bool,
    cursor: Option<i64>,
) -> Seq<char> {
    "wss://"@ + hostname + "/subscribe?compress="@ + flag(compression) + "&requireHello=true"@
        + cursor_param(cursor)
}

/// Writes the URL of a subscription.
pub fn subscribe_url(hostname: &str, compression: bool, cursor: Option<i64>) -> (url: String)
    ensures
        url@ == subscribe_url_text(hostname@, compression, cursor),
{
    let mut url = "wss://".to_owned();
    url.append(hostname);
    url.append("/subscribe?compress=");
    if compression {
        url.append("true");
    } else {
        url.append("false");
    }
    url.append("&requireHello=true");
    if let Some(cursor) = cursor {
        url.append("&cursor=");
        url.append(decimal_from_i64(cursor).as_str());
    }
    assert(url@ =~= subscribe_url_text(hostname@, compression, cursor));
    url
}

/// Why no connection can be asked for.
#[derive(Debug)]
pub enum ConnectError {
    /// The URL is no URI, for this reason.
    InvalidUrl(InvalidUri),
    /// The user agent cannot be sent as a header, for this reason.
    InvalidUserAgent(InvalidHeaderValue),
}

/// What a connection is asked for with.
#[derive(Debug, PartialEq, Eq)]
pub struct ConnectRequest {
    /// The subscription URL.
    pub url: String,
    /// The value of the user agent header.
    pub user_agent: Vec<u8>,
}

/// Makes the request for a connection. The URL is checked before the user
/// agent is.
pub fn connect_request(
    hostname: &str,
    compression: bool,
    user_agent: &str,
    cursor: Option<i64>,
) -> (request: Result<ConnectRequest, ConnectError>)
    ensures
        ({
            let url = subscribe_url_text(hostname@, compression, cursor);
            match request {
                Ok(request) => is_uri(url) && is_header_text(user_agent@) && request.url@ == url
                    && request.user_agent@ == encode_utf8(user_agent@),
                Err(ConnectError::InvalidUrl(_)) => !is_uri(url),
                Err(ConnectError::InvalidUserAgent(_)) => is_uri(url) && !is_header_text(user_agent@),
            }
        }),
{
    let url = subscribe_url(hostname, compression, cursor);
    let checked = check_uri(url.as_str());
    connect_request_with(url, checked, user_agent)
}

/// Makes the request for a connection, given the verdict on its URL.
pub fn connect_request_with(
    url: String,
    checked: Result<(), InvalidUri>,
    user_agent: &str,
) -> (request: Result<ConnectRequest, ConnectError>)
    ensures
        match request {
            Ok(request) => checked is Ok && is_header_text(user_agent@) && request.url == url
                && request.user_agent@ == encode_utf8(user_agent@),
            Err(ConnectError::InvalidUrl(error)) => checked == Err::<(), _>(error),
            Err(ConnectError::InvalidUserAgent(_)) => checked is Ok && !is_header_text(user_agent@),
        },
{
    match checked {
        Err(error) => Err(ConnectError::InvalidUrl(error)),
        Ok(()) => match header_bytes(user_agent) {
            Err(error) => Err(ConnectError::InvalidUserAgent(error)),
            Ok(user_agent) => Ok(ConnectRequest { url, user_agent }),
        },
    }
}

/// A message from the subscriber to Jetstream.
#[derive(Debug, PartialEq, Eq)]
pub enum SubscriberSourcedMessage {
    /// Sets what the stream sends.
    Update {
        wanted_collections: Vec<String>,
        wanted_dids: Vec<String>,
        max_message_size_bytes: u64,
        cursor: Option<i64>,
    },
}

/// The views of a row of texts.
pub open spec fn texts(row: Seq<String>) -> Seq<Seq<char>> {
    row.map_values(|text: String| text@)
}

/// The update that opens a subscription: the given collections of every
/// repository, in messages of at most `MAX_MESSAGE_SIZE` bytes. The cursor is
/// in the URL, not here.
pub fn subscription_update(collections: &Vec<String>) -> (message: SubscriberSourcedMessage)
    ensures
        message matches SubscriberSourcedMessage::Update {
            wanted_collections,
            wanted_dids,
            max_message_size_bytes,
            cursor,
        } && {
            &&& texts(wanted_collections@) == texts(collections@)
            &&& wanted_dids@.len() == 0
            &&& max_message_size_bytes == MAX_MESSAGE_SIZE
            &&& cursor is None
        },
{
    let wanted_collections = collections.clone();
    assert(texts(wanted_collections@) =~= texts(collections@));
    SubscriberSourcedMessage::Update {
        wanted_collections,
        wanted_dids: Vec::new(),
        max_message_size_bytes: MAX_MESSAGE_SIZE as u64,
        cursor: None,
    }
}

/// The URL tells cursors apart: two subscriptions to the same host with the
/// same compression resume at the same place only if they were given the same
/// cursor, or both none.
pub proof fn law_url_fixes_cursor(
    hostname: Seq<char>,
    compression: bool,
    cursor: Option<i64>,
    other: Option<i64>,
)
    requires
        subscribe_url_text(hostname, compression, cursor) == subscribe_url_text(
            hostname,
            compression,
            other,
        ),
    ensures
        cursor == other,
{
    let head = "wss://"@ + hostname + "/subscribe?compress="@ + flag(compression)
        + "&requireHello=true"@;
    let url = subscribe_url_text(hostname, compression, cursor);
    let other_url = subscribe_url_text(hostname, compression, other);
    assert(cursor_param(cursor) =~= url.skip(head.len() as int));
    assert(cursor_param(other) =~= other_url.skip(head.len() as int));
    reveal_strlit("&cursor=");
    match (cursor, other) {
        (Some(cursor), Some(other)) => {
            let prefix = "&cursor="@;
            assert(crate::decimal::decimal(cursor as int) =~= cursor_param(Some(cursor)).skip(prefix.len() as int));
            assert(crate::decimal::decimal(other as int) =~= cursor_param(Some(other)).skip(prefix.len() as int));
            crate::decimal::law_decimal_is_injective(cursor as int, other as int);
        },
        _ => {},
    }
}

/// The URL names the host, the compression that is wanted and the place to
/// resume at: it begins with the first two, and the cursor, where there is
/// one, can be read back from the rest.
pub proof fn law_url_says_what_is_wanted(
    hostname: &str,
    compression: bool,
    cursor: Option<i64>,
    url: String,
)
    requires
        call_ensures(subscribe_url, (hostname, compression, cursor), url),
    ensures
        ({
            let head = "wss://"@ + hostname@ + "/subscribe?compress="@ + (if compression {
                "true"@
            } else {
                "false"@
            }) + "&requireHello=true"@;
            let rest = url@.skip(head.len() as int);
            &&& head.is_prefix_of(url@)
            &&& match cursor {
                None => rest.len() == 0,
                Some(cursor) => {
                    &&& "&cursor="@.is_prefix_of(rest)
                    &&& crate::decimal::is_notation_of(
                        rest.skip("&cursor="@.len() as int),
                        cursor as int,
                    )
                },
            }
        }),
{
    let head = "wss://"@ + hostname@ + "/subscribe?compress="@ + flag(compression)
        + "&requireHello=true"@;
    let rest = url@.skip(head.len() as int);
    assert(rest =~= cursor_param(cursor));
    assert(url@.take(head.len() as int) =~= head);
    if let Some(cursor) = cursor {
        crate::decimal::law_decimal_is_notation(cursor as int);
        assert(rest.skip("&cursor="@.len() as int) =~= crate::decimal::decimal(cursor as int));
    }
}

/// A compressed and a plain subscription to a host never have the same URL,
/// wherever they resume.
pub proof fn law_url_tells_compression(
    hostname: &str,
    cursor: Option<i64>,
    other_cursor: Option<i64>,
    compressed: String,
    plain: String,
)
    requires
        call_ensures(subscribe_url, (hostname, true, cursor), compressed),
        call_ensures(subscribe_url, (hostname, false, other_cursor), plain),
    ensures
        compressed@ != plain@,
{
    reveal_strlit("true");
    reveal_strlit("false");
    let at = ("wss://"@ + hostname@ + "/subscribe?compress="@).len() as int;
    assert(compressed@[at] == 't');
    assert(plain@[at] == 'f');
}

/// A request carries the URL of the subscription and the user agent, byte for
/// byte. There is none only where the URL is no URI, or else where the user
/// agent holds a control character other than a tab.
pub proof fn law_request_carries_url_and_agent(
    hostname: &str,
    compression: bool,
    user_agent: &str,
    cursor: Option<i64>,
    url: String,
    request: Result<ConnectRequest, ConnectError>,
)
    requires
        call_ensures(subscribe_url, (hostname, compression, cursor), url),
        call_ensures(connect_request, (hostname, compression, user_agent, cursor), request),
    ensures
        ({
            let agent = encode_utf8(user_agent@);
            let sendable = forall|i: int|
                0 <= i < agent.len() ==> (#[trigger] agent[i]) == 9 || 32 <= agent[i] < 127
                    || agent[i] > 127;
            match request {
                Ok(request) => {
                    &&& is_uri(url@)
                    &&& sendable
                    &&& request.url@ == url@
                    &&& request.user_agent@ == agent
                },
                Err(ConnectError::InvalidUrl(_)) => !is_uri(url@),
                Err(ConnectError::InvalidUserAgent(_)) => is_uri(url@) && !sendable,
            }
        }),
{
}

/// The verdict on the URL comes first: where it is bad its error is handed on,
/// and where it is good the user agent decides.
pub proof fn law_request_hands_verdict_on(
    url: String,
    checked: Result<(), InvalidUri>,
    user_agent: &str,
    request: Result<ConnectRequest, ConnectError>,
)
    requires
        call_ensures(connect_request_with, (url, checked, user_agent), request),
    ensures
        ({
            let agent = encode_utf8(user_agent@);
            let sendable = forall|i: int|
                0 <= i < agent.len() ==> (#[trigger] agent[i]) == 9 || 32 <= agent[i] < 127
                    || agent[i] > 127;
            match checked {
                Err(error) => request == Err::<ConnectRequest, _>(ConnectError::InvalidUrl(error)),
                Ok(()) => match request {
                    Ok(request) => sendable && request.url@ == url@ && request.user_agent@ == agent,
                    Err(error) => !sendable && error is InvalidUserAgent,
                },
            }
        }),
{
}

/// The subscription asks for just the given collections, in their order, of
/// every repository, and sets the size of messages and nothing else.
pub proof fn law_update_asks_for_collections(
    collections: &Vec<String>,
    message: SubscriberSourcedMessage,
)
    requires
        call_ensures(subscription_update, (collections,), message),
    ensures
        message matches SubscriberSourcedMessage::Update {
            wanted_collections,
            wanted_dids,
            max_message_size_bytes,
            cursor,
        } && {
            &&& wanted_collections@.len() == collections@.len()
            &&& forall|i: int|
                0 <= i < collections@.len() ==> #[trigger] wanted_collections@[i]@
                    == collections@[i]@
            &&& wanted_dids@.len() == 0
            &&& max_message_size_bytes == 25000
            &&& cursor is None
        },
{
    let SubscriberSourcedMessage::Update { wanted_collections, .. } = message;
    let wanted = texts(wanted_collections@);
    assert(wanted.len() == texts(collections@).len());
    assert forall|i: int| 0 <= i < collections@.len() implies #[trigger] wanted_collections@[i]@
        == collections@[i]@ by {
        assert(wanted[i] == texts(collections@)[i]);
    }
}

} // verus!
