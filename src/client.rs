//! The remote chat client's session. The caller moves the bytes: the client
//! builds each HTTP request and decides what each reply means.
use vstd::prelude::*;
use vstd::string::StringExecFns;
use vstd::utf8::{decode_utf8, encode_utf8, valid_utf8};
use crate::protocol::{decimal, decimal_text};
use crate::codec::{decode_chat_response, decoded, encode_chat_request, push_all, request_text,
    response_text, string_at, text_fits, ResponseFields, RESPONSE_CAPACITY, CodecError};
use crate::text::{BoundedText, byte_len};

verus! {

/// Errors of the chat client.
#[derive(Debug, Clone, PartialEq, Eq)]
pub enum ClientError {
    UrlTooLong,
    ApiKeyTooLong,
    MessageTooLong,
    ConnectionFailed(String),
    RequestFailed(String),
    HttpError(u16),
    ReadFailed(String),
    InvalidResponse,
    ParseError,
    ServerError(String),
    NoResponse,
    ResponseTooLarge,
}

impl ClientError {
    /// A description for the user.
    pub fn message(&self) -> (r: String)
        ensures
            r@ == match self {
                ClientError::UrlTooLong => "URL too long"@,
                ClientError::ApiKeyTooLong => "API key too long"@,
                ClientError::MessageTooLong => "Message too long"@,
                ClientError::ConnectionFailed(e) => "Connection failed: "@ + e@,
                ClientError::RequestFailed(e) => "Request failed: "@ + e@,
                ClientError::HttpError(code) => "HTTP error: "@ + decimal(*code as nat),
                ClientError::ReadFailed(e) => "Read failed: "@ + e@,
                ClientError::InvalidResponse => "Invalid response"@,
                ClientError::ParseError => "Failed to parse response"@,
                ClientError::ServerError(e) => "Server error: "@ + e@,
                ClientError::NoResponse => "No response from server"@,
                ClientError::ResponseTooLarge => "Response too large"@,
            },
    {
        match self {
            ClientError::UrlTooLong => String::from_str("URL too long"),
            ClientError::ApiKeyTooLong => String::from_str("API key too long"),
            ClientError::MessageTooLong => String::from_str("Message too long"),
            ClientError::ConnectionFailed(e) => String::from_str("Connection failed: ").concat(
                e.as_str(),
            ),
            ClientError::RequestFailed(e) => String::from_str("Request failed: ").concat(e.as_str()),
            ClientError::HttpError(code) => {
                let digits = decimal_text(*code as u64);
                String::from_str("HTTP error: ").concat(digits.as_str())
            },
            ClientError::ReadFailed(e) => String::from_str("Read failed: ").concat(e.as_str()),
            ClientError::InvalidResponse => String::from_str("Invalid response"),
            ClientError::ParseError => String::from_str("Failed to parse response"),
            ClientError::ServerError(e) => String::from_str("Server error: ").concat(e.as_str()),
            ClientError::NoResponse => String::from_str("No response from server"),
            ClientError::ResponseTooLarge => String::from_str("Response too large"),
        }
    }
}

/// A failure of the HTTP transport, with its description.
#[derive(Debug, Clone, PartialEq, Eq)]
pub enum TransportError {
    /// No connection could be made.
    Connect(String),
    /// The request could not be sent or had no status.
    Request(String),
    /// The response body could not be read.
    Read(String),
}

#[derive(Debug, Clone, Copy, PartialEq, Eq, Structural)]
pub enum HttpMethod {
    Get,
    Post,
}

/// A request for the transport to perform.
#[derive(Debug, Clone, PartialEq, Eq)]
pub struct HttpRequest {
    pub method: HttpMethod,
    pub url: String,
    /// The value of the `Authorization` header, if one is sent.
    pub authorization: Option<String>,
    /// The JSON body; empty for a GET.
    pub body: String,
}

/// A reply as the transport received it.
#[derive(Debug, Clone, PartialEq, Eq)]
pub struct HttpReply {
    pub status: u16,
    pub body: Vec<u8>,
}

/// The abstract state of a client.
pub struct ClientModel {
    pub base_url: Seq<char>,
    pub api_key: Option<Seq<char>>,
    pub connected: bool,
}

pub open spec fn webhook_path() -> Seq<char> {
    seq!['/', 'w', 'e', 'b', 'h', 'o', 'o', 'k']
}

pub open spec fn health_path() -> Seq<char> {
    seq!['/', 'h', 'e', 'a', 'l', 't', 'h']
}

pub open spec fn bearer(key: Seq<char>) -> Seq<char> {
    seq!['B', 'e', 'a', 'r', 'e', 'r', ' '] + key
}

/// The error that a transport failure is reported as.
pub open spec fn transport_error(e: TransportError) -> ClientError {
    match e {
        TransportError::Connect(d) => ClientError::ConnectionFailed(d),
        TransportError::Request(d) => ClientError::RequestFailed(d),
        TransportError::Read(d) => ClientError::ReadFailed(d),
    }
}

/// Relies on `String::from_utf8`: it succeeds exactly on valid UTF-8, and
/// the string then holds the characters those bytes encode.
#[verifier::external_body]
fn utf8_string(bytes: Vec<u8>) -> (r: Option<String>)
    ensures
        r is Some <==> valid_utf8(bytes@),
        r matches Some(s) ==> s@ == decode_utf8(bytes@),
{
    String::from_utf8(bytes).ok()
}

/// A session with a chat service at a base URL.
#[derive(Debug)]
pub struct ZeroClawClient {
    base_url: BoundedText<128>,
    api_key: Option<BoundedText<64>>,
    connected: bool,
}

impl View for ZeroClawClient {
    type V = ClientModel;

    closed spec fn view(&self) -> ClientModel {
        ClientModel {
            base_url: self.base_url@,
            api_key: match self.api_key {
                Some(k) => Some(k@),
                None => None,
            },
            connected: self.connected,
        }
    }
}

fn url_with(base: &BoundedText<128>, path: &Vec<char>) -> (r: Result<String, ClientError>)
    ensures
        r is Ok <==> byte_len(base@ + path@) <= 128,
        r matches Ok(u) ==> u@ == base@ + path@,
        r is Err ==> r == Err::<String, ClientError>(ClientError::UrlTooLong),
{
    let mut u = String::new();
    push_all(&mut u, &path);
    let mut url = base.duplicate();
    proof {
        assert(Seq::<char>::empty() + path@ =~= path@);
    }
    match url.push_str(u.as_str()) {
        Ok(()) => {
            proof {
                crate::text::lemma_encode_concat(base@, path@);
            }
            Ok(url.as_str().to_owned())
        },
        Err(_) => {
            proof {
                crate::text::lemma_encode_concat(base@, path@);
            }
            Err(ClientError::UrlTooLong)
        },
    }
}

impl ZeroClawClient {
    /// A disconnected client for `base_url`, without an API key. Fails with
    /// `UrlTooLong` over 128 bytes.
    pub fn new(base_url: &str) -> (r: Result<Self, ClientError>)
        ensures
            r is Ok <==> byte_len(base_url@) <= 128,
            r matches Ok(c) ==> c@ == (ClientModel {
                base_url: base_url@,
                api_key: None,
                connected: false,
            }),
            r is Err ==> r == Err::<Self, ClientError>(ClientError::UrlTooLong),
    {
        match BoundedText::<128>::from_str(base_url) {
            Ok(url) => Ok(ZeroClawClient { base_url: url, api_key: None, connected: false }),
            Err(_) => Err(ClientError::UrlTooLong),
        }
    }

    /// Sets the API key. Fails with `ApiKeyTooLong` over 64 bytes, changing
    /// nothing.
    pub fn set_api_key(&mut self, key: &str) -> (r: Result<(), ClientError>)
        ensures
            r is Ok <==> byte_len(key@) <= 64,
            r is Ok ==> final(self)@ == (ClientModel { api_key: Some(key@), ..old(self)@ }),
            r is Err ==> r == Err::<(), ClientError>(ClientError::ApiKeyTooLong) && final(self)@
                == old(self)@,
    {
        match BoundedText::<64>::from_str(key) {
            Ok(k) => {
                self.api_key = Some(k);
                Ok(())
            },
            Err(_) => Err(ClientError::ApiKeyTooLong),
        }
    }

    pub fn is_connected(&self) -> (r: bool)
        ensures
            r == self@.connected,
    {
        self.connected
    }

    pub fn set_connected(&mut self, connected: bool)
        ensures
            final(self)@ == (ClientModel { connected, ..old(self)@ }),
    {
        self.connected = connected;
    }

    fn authorization(&self) -> (r: Option<String>)
        ensures
            r is Some <==> self@.api_key is Some,
            r matches Some(h) ==> h@ == bearer(self@.api_key->0),
    {
        match &self.api_key {
            Some(k) => {
                let prefix: Vec<char> = vec!['B', 'e', 'a', 'r', 'e', 'r', ' '];
                let mut h = String::new();
                push_all(&mut h, &prefix);
                let mut rest = h.as_str().to_owned();
                rest = rest.concat(k.as_str());
                proof {
                    assert(h@ =~= seq!['B', 'e', 'a', 'r', 'e', 'r', ' ']);
                }
                Some(rest)
            },
            None => None,
        }
    }

    /// The request that sends `message`: a POST of the encoded message to
    /// the base URL plus `/webhook`, with a bearer token when a key is set.
    /// Fails with `UrlTooLong` when that URL exceeds 128 bytes, else with
    /// `MessageTooLong` when the encoded request exceeds its buffer.
    pub fn send_message(&self, message: &str) -> (r: Result<HttpRequest, ClientError>)
        ensures
            byte_len(self@.base_url + webhook_path()) > 128 ==> r == Err::<
                HttpRequest,
                ClientError,
            >(ClientError::UrlTooLong),
            byte_len(self@.base_url + webhook_path()) <= 128 && byte_len(request_text(message@))
                > crate::codec::REQUEST_CAPACITY ==> r == Err::<HttpRequest, ClientError>(
                ClientError::MessageTooLong,
            ),
            r is Ok <==> byte_len(self@.base_url + webhook_path()) <= 128 && byte_len(
                request_text(message@),
            ) <= crate::codec::REQUEST_CAPACITY,
            r matches Ok(q) ==> q.method == HttpMethod::Post && q.url@ == self@.base_url
                + webhook_path() && q.body@ == request_text(message@) && (q.authorization is Some
                <==> self@.api_key is Some) && (q.authorization matches Some(h) ==> h@ == bearer(
                self@.api_key->0,
            )),
    {
        let path: Vec<char> = vec!['/', 'w', 'e', 'b', 'h', 'o', 'o', 'k'];
        assert(path@ =~= webhook_path());
        let url = match url_with(&self.base_url, &path) {
            Ok(u) => u,
            Err(e) => {
                return Err(e);
            },
        };
        let body = match encode_chat_request(message) {
            Ok(b) => b,
            Err(_) => {
                return Err(ClientError::MessageTooLong);
            },
        };
        Ok(HttpRequest {
            method: HttpMethod::Post,
            url,
            authorization: self.authorization(),
            body: body.as_str().to_owned(),
        })
    }

    /// Takes the transport's outcome for a `send_message` request. A
    /// transport failure is reported as such; a status other than 200 is an
    /// `HttpError`; a body over the response buffer is `ResponseTooLarge`,
    /// one that is not UTF-8 `InvalidResponse`, one that does not decode
    /// `ParseError`. A decoded `error` is a `ServerError`, a missing
    /// `response` is `NoResponse`. Only a returned response marks the
    /// session connected; nothing else changes it.
    pub fn receive_message_reply(&mut self, reply: Result<HttpReply, TransportError>) -> (r: Result<
        String,
        ClientError,
    >)
        ensures
            final(self)@.base_url == old(self)@.base_url,
            final(self)@.api_key == old(self)@.api_key,
            final(self)@.connected == (old(self)@.connected || r is Ok),
            match reply {
                Err(e) => r == Err::<String, ClientError>(transport_error(e)),
                Ok(h) => if h.status != 200 {
                    r == Err::<String, ClientError>(ClientError::HttpError(h.status))
                } else if h.body@.len() > RESPONSE_CAPACITY {
                    r == Err::<String, ClientError>(ClientError::ResponseTooLarge)
                } else if !valid_utf8(h.body@) {
                    r == Err::<String, ClientError>(ClientError::InvalidResponse)
                } else {
                    match decoded(decode_utf8(h.body@)) {
                        None => r == Err::<String, ClientError>(ClientError::ParseError),
                        Some(f) => match f.error {
                            Some(e) => r matches Err(ClientError::ServerError(t)) && t@ == e,
                            None => match f.response {
                                None => r == Err::<String, ClientError>(ClientError::NoResponse),
                                Some(t) => r matches Ok(s) && s@ == t,
                            },
                        },
                    }
                }
            },
    {
        let h = match reply {
            Ok(h) => h,
            Err(TransportError::Connect(d)) => {
                return Err(ClientError::ConnectionFailed(d));
            },
            Err(TransportError::Request(d)) => {
                return Err(ClientError::RequestFailed(d));
            },
            Err(TransportError::Read(d)) => {
                return Err(ClientError::ReadFailed(d));
            },
        };
        if h.status != 200 {
            return Err(ClientError::HttpError(h.status));
        }
        if h.body.len() > RESPONSE_CAPACITY {
            return Err(ClientError::ResponseTooLarge);
        }
        let ghost bytes = h.body@;
        let text = match utf8_string(h.body) {
            Some(t) => t,
            None => {
                return Err(ClientError::InvalidResponse);
            },
        };
        let c = match decode_chat_response(text.as_str()) {
            Ok(c) => c,
            Err(CodecError::ParseError) | Err(CodecError::MessageTooLong) => {
                return Err(ClientError::ParseError);
            },
        };
        if let Some(e) = c.error {
            return Err(ClientError::ServerError(e.as_str().to_owned()));
        }
        match c.response {
            Some(t) => {
                self.connected = true;
                Ok(t.as_str().to_owned())
            },
            None => Err(ClientError::NoResponse),
        }
    }

    /// The health-check request: a GET of the base URL plus `/health`.
    /// Fails with `UrlTooLong` when that URL exceeds 128 bytes.
    pub fn check_connection(&self) -> (r: Result<HttpRequest, ClientError>)
        ensures
            r is Ok <==> byte_len(self@.base_url + health_path()) <= 128,
            r is Err ==> r == Err::<HttpRequest, ClientError>(ClientError::UrlTooLong),
            r matches Ok(q) ==> q.method == HttpMethod::Get && q.url@ == self@.base_url
                + health_path() && q.authorization is None && q.body@.len() == 0,
    {
        let path: Vec<char> = vec!['/', 'h', 'e', 'a', 'l', 't', 'h'];
        assert(path@ =~= health_path());
        let url = match url_with(&self.base_url, &path) {
            Ok(u) => u,
            Err(e) => {
                return Err(e);
            },
        };
        Ok(HttpRequest { method: HttpMethod::Get, url, authorization: None, body: String::new() })
    }

    /// Takes the transport's outcome for a health check: connected exactly
    /// when a status of 200 came back. A transport failure is no error here:
    /// it means disconnected.
    pub fn receive_health_reply(&mut self, reply: Result<u16, TransportError>) -> (r: bool)
        ensures
            r == (reply == Ok::<u16, TransportError>(200)),
            final(self)@ == (ClientModel { connected: r, ..old(self)@ }),
    {
        let connected = match reply {
            Ok(status) => status == 200,
            Err(_) => false,
        };
        self.connected = connected;
        connected
    }
}

/// Round trip of a message exchange. The message reads back from the body of
/// its request. The UTF-8 bytes of a response object carrying `response` are
/// valid and decode to that response and no error, so that a 200 reply with
/// them yields the response text when present and `NoResponse` when absent.
pub proof fn lemma_round_trip(message: Seq<char>, response: Option<Seq<char>>)
    requires
        text_fits(response, RESPONSE_CAPACITY as nat),
    ensures
        string_at(request_text(message), 12) == Some(
            (message, request_text(message).len() - 1),
        ),
        valid_utf8(encode_utf8(response_text(response))),
        decoded(decode_utf8(encode_utf8(response_text(response)))) == Some(
            ResponseFields { response: response, error: None },
        ),
{
    crate::codec::lemma_request_message(message);
    crate::codec::lemma_response_decodes(response);
    vstd::utf8::encode_utf8_valid_utf8(response_text(response));
    vstd::utf8::encode_utf8_decode_utf8(response_text(response));
}

} // verus!
