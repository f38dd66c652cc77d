//! CONNECT requests: who is let in, what they are answered, and what is dialed for them.

use crate::acl::OutboundHandler;
use crate::proxy_core::address::Address;
use crate::proxy_core::connection::ConnectionId;
use crate::proxy_core::hooks::{OutboundType, UserId};
use crate::proxy_core::ip::{IpAddr, SocketAddr};
use crate::text;
use crate::transport::padding::{generate_padding_header, PaddingRng};
use crate::uot::{detect_uot, UotVersion};
use std::sync::Arc;
use vstd::prelude::*;

verus! {

/// Keepalive of outbound connections, in seconds.
pub const TCP_KEEPALIVE_SECS: u64 = 15;

/// Seconds that shutting down one side of a cancelled tunnel may take.
pub const SHUTDOWN_TIMEOUT_SECS: u64 = 5;

/// Status of a request that is let in.
pub const STATUS_OK: u16 = 200;

/// Status of a request without the padding header.
pub const STATUS_BAD_REQUEST: u16 = 400;

/// Status of a request that the router rejects.
pub const STATUS_FORBIDDEN: u16 = 403;

/// Status of a request with a method other than CONNECT.
pub const STATUS_METHOD_NOT_ALLOWED: u16 = 405;

/// Status of a request without a user's credential.
pub const STATUS_PROXY_AUTH_REQUIRED: u16 = 407;

/// Why an authorization header holds no credential.
#[derive(Debug, PartialEq, Eq)]
pub enum AuthError {
    /// It does not start with `Basic `.
    MissingPrefix,
    /// What follows is not base64: the text of the decoder's error.
    Base64(String),
    /// What was decoded is not UTF-8: the text of the error.
    Utf8(String),
}

/// Why an authorization header holds no credential.
pub enum AuthErrorView {
    MissingPrefix,
    Base64(Seq<char>),
    Utf8(Seq<char>),
}

impl View for AuthError {
    type V = AuthErrorView;

    open spec fn view(&self) -> AuthErrorView {
        match self {
            AuthError::MissingPrefix => AuthErrorView::MissingPrefix,
            AuthError::Base64(e) => AuthErrorView::Base64(e@),
            AuthError::Utf8(e) => AuthErrorView::Utf8(e@),
        }
    }
}

/// The text of the error about an authorization header.
pub open spec fn auth_error_text(e: AuthErrorView) -> Seq<char> {
    match e {
        AuthErrorView::MissingPrefix => "Expected 'Basic ' prefix in Proxy-Authorization header"@,
        AuthErrorView::Base64(t) => "Base64 decode failed: "@ + t,
        AuthErrorView::Utf8(t) => "UTF-8 decode failed: "@ + t,
    }
}

impl AuthError {
    /// The text of the error.
    pub fn describe(&self) -> (r: String)
        ensures
            r@ == auth_error_text(self@),
    {
        match self {
            AuthError::MissingPrefix => text::owned(
                "Expected 'Basic ' prefix in Proxy-Authorization header",
            ),
            AuthError::Base64(t) => text::concat("Base64 decode failed: ", t.as_str()),
            AuthError::Utf8(t) => text::concat("UTF-8 decode failed: ", t.as_str()),
        }
    }
}

/// What base64's standard engine decodes `t` to, or the text of its error.
pub uninterp spec fn base64_bytes(t: Seq<char>) -> Result<Seq<u8>, Seq<char>>;

/// The contents of decoded bytes, or of the text of an error.
pub open spec fn decoded_view(r: Result<Vec<u8>, String>) -> Result<Seq<u8>, Seq<char>> {
    match r {
        Ok(b) => Ok(b@),
        Err(e) => Err(e@),
    }
}

/// `Engine::decode` of base64's standard engine: the bytes, or the text of the error, depending
/// on the text alone.
#[verifier::external_body]
fn base64_decode(t: &str) -> (r: Result<Vec<u8>, String>)
    ensures
        decoded_view(r) == base64_bytes(t@),
{
    base64::Engine::decode(&base64::engine::general_purpose::STANDARD, t).map_err(|e| e.to_string())
}

/// The encoded part of an authorization header: what follows `Basic `, trimmed.
pub open spec fn basic_body(header: Seq<char>) -> Option<Seq<char>> {
    if header.len() >= 6 && header.take(6) == "Basic "@ {
        Some(text::trimmed(header.skip(6)))
    } else {
        None
    }
}

/// The credential in a decoded text: what follows the first colon, or everything where there is
/// no colon.
pub open spec fn password(t: Seq<char>) -> Seq<char> {
    let k = text::first_index(t, ':', 0);
    if k >= 0 {
        t.skip(k + 1)
    } else {
        t
    }
}

/// The credential in decoded bytes; the text of the error where they are not UTF-8.
pub open spec fn credential(decoded: Seq<u8>) -> Result<Seq<char>, Seq<char>> {
    if vstd::utf8::valid_utf8(decoded) {
        Ok(password(vstd::utf8::decode_utf8(decoded)))
    } else {
        Err(text::utf8_error(decoded))
    }
}

/// What an authorization header comes to, given what its encoded part decodes to.
pub open spec fn decoded_auth(decoded: Result<Seq<u8>, Seq<char>>) -> Result<
    Seq<char>,
    AuthErrorView,
> {
    match decoded {
        Err(e) => Err(AuthErrorView::Base64(e)),
        Ok(b) => match credential(b) {
            Err(e) => Err(AuthErrorView::Utf8(e)),
            Ok(c) => Ok(c),
        },
    }
}

/// What the authorization header comes to.
pub open spec fn header_auth(header: Seq<char>) -> Result<Seq<char>, AuthErrorView> {
    match basic_body(header) {
        Some(body) => decoded_auth(base64_bytes(body)),
        None => Err(AuthErrorView::MissingPrefix),
    }
}

/// The contents of a credential.
pub open spec fn auth_result(r: Result<String, AuthError>) -> Result<Seq<char>, AuthErrorView> {
    match r {
        Ok(c) => Ok(c@),
        Err(e) => Err(e@),
    }
}

/// The contents of a credential in decoded bytes.
pub open spec fn credential_result(r: Result<String, String>) -> Result<Seq<char>, Seq<char>> {
    match r {
        Ok(c) => Ok(c@),
        Err(e) => Err(e@),
    }
}

/// The credential in decoded bytes.
pub fn credential_of(decoded: Vec<u8>) -> (r: Result<String, String>)
    ensures
        credential_result(r) == credential(decoded@),
{
    match text::utf8_text(decoded) {
        Err(e) => Err(e),
        Ok(t) => {
            let chars: Vec<char> = text::chars_of(t.as_str());
            let n: usize = chars.len();
            match text::find_first(chars.as_slice(), ':') {
                Some(k) => {
                    let rest: &[char] = vstd::slice::slice_subrange(chars.as_slice(), k + 1, n);
                    assert(rest@ =~= chars@.skip(k + 1));
                    Ok(text::string_of(rest))
                },
                None => Ok(t),
            }
        },
    }
}

/// What an authorization header comes to, given what its encoded part decodes to.
pub fn auth_from_decoded(decoded: Result<Vec<u8>, String>) -> (r: Result<String, AuthError>)
    ensures
        auth_result(r) == decoded_auth(decoded_view(decoded)),
{
    match decoded {
        Err(e) => Err(AuthError::Base64(e)),
        Ok(b) => match credential_of(b) {
            Ok(c) => Ok(c),
            Err(e) => Err(AuthError::Utf8(e)),
        },
    }
}

/// The credential of an authorization header: the password of HTTP basic authentication.
pub fn parse_basic_auth(auth_header: &str) -> (r: Result<String, AuthError>)
    ensures
        auth_result(r) == header_auth(auth_header@),
{
    let chars: Vec<char> = text::chars_of(auth_header);
    let n: usize = chars.len();
    let prefix: Vec<char> = text::chars_of("Basic ");
    proof {
        reveal_strlit("Basic ");
    }
    if n < 6 {
        return Err(AuthError::MissingPrefix);
    }
    assert(chars@.subrange(0, 6) =~= chars@.take(6));
    if !text::same_chars(
        vstd::slice::slice_subrange(chars.as_slice(), 0, 6),
        prefix.as_slice(),
    ) {
        return Err(AuthError::MissingPrefix);
    }
    assert(chars@.subrange(6, n as int) =~= chars@.skip(6));
    let body: &[char] = text::trim(vstd::slice::slice_subrange(chars.as_slice(), 6, n));
    auth_from_decoded(base64_decode(text::string_of(body).as_str()))
}

/// The password is what follows the first colon, whatever it holds: a user name without a colon
/// never becomes part of it.
pub proof fn law_password_follows_first_colon(user: Seq<char>, secret: Seq<char>)
    requires
        !user.contains(':'),
    ensures
        credential(vstd::utf8::encode_utf8(user + seq![':'] + secret)) == Ok::<
            Seq<char>,
            Seq<char>,
        >(secret),
{
    let t = user + seq![':'] + secret;
    vstd::utf8::encode_utf8_valid_utf8(t);
    vstd::utf8::encode_utf8_decode_utf8(t);
    assert forall|j: int| 0 <= j < user.len() implies t[j] != ':' by {
        assert(user.contains(user[j]));
    }
    text::lemma_first_index(t, ':', 0, user.len() as int);
    assert(t.skip(user.len() as int + 1) =~= secret);
}

/// Why a request is refused.
#[derive(Debug)]
pub enum RequestError {
    /// The method, which is not CONNECT.
    Method(Vec<u8>),
    /// There is no padding header.
    MissingPadding,
    /// There is no authority, or none that is text.
    MissingAuthority,
    /// The authority, which names no address.
    InvalidTarget(String),
    /// There is no authorization header, or none that is text.
    MissingAuth,
    /// The authorization header holds no credential.
    BadAuth(AuthError),
    /// The credential belongs to no user.
    UnknownUser,
}

/// Why a request is refused.
pub enum RequestErrorView {
    Method(Seq<u8>),
    MissingPadding,
    MissingAuthority,
    InvalidTarget(Seq<char>),
    MissingAuth,
    BadAuth(AuthErrorView),
    UnknownUser,
}

impl View for RequestError {
    type V = RequestErrorView;

    open spec fn view(&self) -> RequestErrorView {
        match self {
            RequestError::Method(m) => RequestErrorView::Method(m@),
            RequestError::MissingPadding => RequestErrorView::MissingPadding,
            RequestError::MissingAuthority => RequestErrorView::MissingAuthority,
            RequestError::InvalidTarget(a) => RequestErrorView::InvalidTarget(a@),
            RequestError::MissingAuth => RequestErrorView::MissingAuth,
            RequestError::BadAuth(e) => RequestErrorView::BadAuth(e@),
            RequestError::UnknownUser => RequestErrorView::UnknownUser,
        }
    }
}

/// The status that a refused request is answered; none where it is not answered at all.
pub open spec fn refusal_status(e: RequestErrorView) -> Option<u16> {
    match e {
        RequestErrorView::Method(_) => Some(STATUS_METHOD_NOT_ALLOWED),
        RequestErrorView::MissingPadding => Some(STATUS_BAD_REQUEST),
        RequestErrorView::MissingAuthority => None,
        RequestErrorView::InvalidTarget(_) => None,
        RequestErrorView::MissingAuth => Some(STATUS_PROXY_AUTH_REQUIRED),
        RequestErrorView::BadAuth(_) => Some(STATUS_PROXY_AUTH_REQUIRED),
        RequestErrorView::UnknownUser => Some(STATUS_PROXY_AUTH_REQUIRED),
    }
}

impl RequestError {
    /// The status that the request is answered; none where it is not answered at all.
    pub fn status(&self) -> (r: Option<u16>)
        ensures
            r == refusal_status(self@),
    {
        match self {
            RequestError::Method(_) => Some(STATUS_METHOD_NOT_ALLOWED),
            RequestError::MissingPadding => Some(STATUS_BAD_REQUEST),
            RequestError::MissingAuthority => None,
            RequestError::InvalidTarget(_) => None,
            RequestError::MissingAuth => Some(STATUS_PROXY_AUTH_REQUIRED),
            RequestError::BadAuth(_) => Some(STATUS_PROXY_AUTH_REQUIRED),
            RequestError::UnknownUser => Some(STATUS_PROXY_AUTH_REQUIRED),
        }
    }
}

/// A request whose form is right: where it wants to go, and the credential that it shows.
pub struct Admitted {
    pub target: Address,
    pub credential: String,
}

/// What the form of a request comes to.
pub open spec fn admission(
    method: Seq<u8>,
    has_padding: bool,
    authority: Option<Seq<char>>,
    auth: Option<Seq<char>>,
) -> Result<(crate::proxy_core::address::AddressView, Seq<char>), RequestErrorView> {
    if method != connect_method() {
        Err(RequestErrorView::Method(method))
    } else if !has_padding {
        Err(RequestErrorView::MissingPadding)
    } else if authority is None {
        Err(RequestErrorView::MissingAuthority)
    } else if crate::proxy_core::address::authority_value(authority->0) is None {
        Err(RequestErrorView::InvalidTarget(authority->0))
    } else if auth is None {
        Err(RequestErrorView::MissingAuth)
    } else {
        match header_auth(auth->0) {
            Err(e) => Err(RequestErrorView::BadAuth(e)),
            Ok(c) => Ok((crate::proxy_core::address::authority_value(authority->0)->0, c)),
        }
    }
}

/// The bytes of `CONNECT`.
pub open spec fn connect_method() -> Seq<u8> {
    seq![67u8, 79, 78, 78, 69, 67, 84]
}

/// The contents of an admission.
pub open spec fn admission_view(r: Result<Admitted, RequestError>) -> Result<
    (crate::proxy_core::address::AddressView, Seq<char>),
    RequestErrorView,
> {
    match r {
        Ok(a) => Ok((a.target@, a.credential@)),
        Err(e) => Err(e@),
    }
}

/// The contents of an optional text.
pub open spec fn str_view(t: Option<&str>) -> Option<Seq<char>> {
    match t {
        Some(s) => Some(s@),
        None => None,
    }
}

fn is_connect(method: &[u8]) -> (r: bool)
    ensures
        r == (method@ == connect_method()),
{
    let r: bool = method.len() == 7 && method[0] == 67 && method[1] == 79 && method[2] == 78
        && method[3] == 78 && method[4] == 69 && method[5] == 67 && method[6] == 84;
    proof {
        if r {
            assert(method@ =~= connect_method());
        }
    }
    r
}

/// Checks the form of a request, in this order: the method, the padding header, the authority,
/// the authorization header.
pub fn check_request(
    method: &[u8],
    has_padding: bool,
    authority: Option<&str>,
    auth_header: Option<&str>,
) -> (r: Result<Admitted, RequestError>)
    ensures
        admission_view(r) == admission(
            method@,
            has_padding,
            str_view(authority),
            str_view(auth_header),
        ),
{
    if !is_connect(method) {
        return Err(RequestError::Method(text::bytes_of(method)));
    }
    if !has_padding {
        return Err(RequestError::MissingPadding);
    }
    let authority: &str = match authority {
        Some(a) => a,
        None => {
            return Err(RequestError::MissingAuthority);
        },
    };
    let target: Address = match Address::from_authority(authority) {
        Some(t) => t,
        None => {
            return Err(
                RequestError::InvalidTarget(
                    text::owned(authority),
                ),
            );
        },
    };
    let auth: &str = match auth_header {
        Some(a) => a,
        None => {
            return Err(RequestError::MissingAuth);
        },
    };
    match parse_basic_auth(auth) {
        Ok(credential) => Ok(Admitted { target, credential }),
        Err(e) => Err(RequestError::BadAuth(e)),
    }
}

/// A header as it comes off the wire.
pub struct WireHeader {
    pub name: Vec<u8>,
    pub value: Vec<u8>,
}

/// The value of the first header of that name.
pub open spec fn header_value(headers: Seq<WireHeader>, name: Seq<u8>) -> Option<Seq<u8>>
    decreases headers.len(),
{
    if headers.len() == 0 {
        None
    } else if headers[0].name@ == name {
        Some(headers[0].value@)
    } else {
        header_value(headers.skip(1), name)
    }
}

/// The text that bytes hold, if they are UTF-8.
pub open spec fn utf8_value(v: Option<Seq<u8>>) -> Option<Seq<char>> {
    match v {
        Some(b) => if vstd::utf8::valid_utf8(b) {
            Some(vstd::utf8::decode_utf8(b))
        } else {
            None
        },
        None => None,
    }
}

fn same_bytes(x: &[u8], y: &[u8]) -> (r: bool)
    ensures
        r == (x@ == y@),
{
    if x.len() != y.len() {
        return false;
    }
    let mut i: usize = 0;
    while i < x.len()
        invariant
            i <= x@.len(),
            x@.len() == y@.len(),
            forall|j: int| 0 <= j < i ==> #[trigger] x@[j] == y@[j],
        decreases x@.len() - i,
    {
        if x[i] != y[i] {
            return false;
        }
        i += 1;
    }
    assert(x@ =~= y@);
    true
}

/// The value of the first header of that name.
pub fn find_header(headers: &Vec<WireHeader>, name: &str) -> (r: Option<Vec<u8>>)
    ensures
        match r {
            Some(v) => header_value(headers@, vstd::utf8::encode_utf8(name@)) == Some(v@),
            None => header_value(headers@, vstd::utf8::encode_utf8(name@)) is None,
        },
{
    let wanted: &[u8] = name.as_bytes();
    let mut i: usize = 0;
    assert(headers@.skip(0) =~= headers@);
    while i < headers.len()
        invariant
            i <= headers@.len(),
            wanted@ == vstd::utf8::encode_utf8(name@),
            header_value(headers@, wanted@) == header_value(headers@.skip(i as int), wanted@),
        decreases headers@.len() - i,
    {
        assert(headers@.skip(i as int).skip(1) =~= headers@.skip(i + 1));
        if same_bytes(headers[i].name.as_slice(), wanted) {
            return Some(text::bytes_of(headers[i].value.as_slice()));
        }
        i += 1;
    }
    None
}

fn header_text(v: Option<Vec<u8>>) -> (r: Option<String>)
    ensures
        crate::acl::text_view(r) == utf8_value(
            match v {
                Some(b) => Some(b@),
                None => None,
            },
        ),
{
    match v {
        Some(b) => match text::utf8_text(b) {
            Ok(t) => Some(t),
            Err(_) => None,
        },
        None => None,
    }
}

/// What the form of a request given by its headers comes to.
pub open spec fn wire_admission(headers: Seq<WireHeader>) -> Result<
    (crate::proxy_core::address::AddressView, Seq<char>),
    RequestErrorView,
> {
    let method = header_value(headers, vstd::utf8::encode_utf8(":method"@));
    admission(
        match method {
            Some(m) => m,
            None => Seq::empty(),
        },
        header_value(headers, vstd::utf8::encode_utf8("padding"@)) is Some,
        utf8_value(header_value(headers, vstd::utf8::encode_utf8(":authority"@))),
        utf8_value(header_value(headers, vstd::utf8::encode_utf8("proxy-authorization"@))),
    )
}

/// Checks the form of a request given by its headers, pseudo-headers among them. A value that
/// is not UTF-8 counts as missing.
pub fn check_wire_request(headers: &Vec<WireHeader>) -> (r: Result<Admitted, RequestError>)
    ensures
        admission_view(r) == wire_admission(headers@),
{
    let method: Vec<u8> = match find_header(headers, ":method") {
        Some(m) => m,
        None => Vec::new(),
    };
    let has_padding: bool = find_header(headers, "padding").is_some();
    let authority: Option<String> = header_text(find_header(headers, ":authority"));
    let auth: Option<String> = header_text(find_header(headers, "proxy-authorization"));
    assert(header_value(headers@, vstd::utf8::encode_utf8(":method"@)) is None ==> method@
        =~= Seq::<u8>::empty());
    let a: Option<&str> = match &authority {
        Some(t) => Some(t.as_str()),
        None => None,
    };
    let b: Option<&str> = match &auth {
        Some(t) => Some(t.as_str()),
        None => None,
    };
    check_request(method.as_slice(), has_padding, a, b)
}

/// The user that a credential belongs to, or the refusal where it belongs to none.
pub fn after_auth(user: Option<UserId>) -> (r: Result<UserId, RequestError>)
    ensures
        match user {
            Some(id) => r matches Ok(u) && u == id,
            None => r matches Err(e) && e@ == RequestErrorView::UnknownUser,
        },
{
    match user {
        Some(id) => Ok(id),
        None => Err(RequestError::UnknownUser),
    }
}

/// The status that a request of a known user is answered: 403 where the router rejects it, else
/// 200.
pub fn after_route(route: &OutboundType) -> (r: u16)
    ensures
        r == (if route@ is Reject {
            STATUS_FORBIDDEN
        } else {
            STATUS_OK
        }),
{
    match route {
        OutboundType::Reject => STATUS_FORBIDDEN,
        _ => STATUS_OK,
    }
}

/// A request on its way from the first check to its tunnel, with what is known of it so far.
pub enum RequestFlow {
    /// It has come in.
    Received,
    /// Its form is right; the user of its credential is awaited.
    Checked(Admitted),
    /// Its user is known; its route is awaited.
    Authenticated { target: Address, user_id: UserId },
    /// It is let in; the sending of the answer is awaited.
    Accepted { target: Address, user_id: UserId, route: OutboundType },
    /// Its way is over.
    Ended,
}

/// What a request on its way is told.
pub enum RequestEvent {
    /// What its form comes to.
    Checked(Result<Admitted, RequestError>),
    /// The user that its credential belongs to, if there is one.
    Authenticated(Option<UserId>),
    /// Where the router sends its target.
    Routed(OutboundType),
    /// Whether the answer that lets it in could be sent.
    Answered(bool),
}

/// What is done next for a request.
pub enum RequestAction {
    /// Look for the user of its credential.
    Authenticate,
    /// Ask the router about its target.
    Route,
    /// Answer the status of the error, if it has one, and report the error.
    Refuse(RequestError),
    /// Answer that the router rejects it.
    Reject,
    /// Answer that it is let in.
    Accept,
    /// Open its tunnel.
    Tunnel { target: Address, user_id: UserId, route: OutboundType },
    /// Report that the answer could not be sent.
    Abandon,
    /// Nothing: what it was told was not awaited.
    Ignore,
}

/// Where a request stands after it was told something, and what is done next for it.
pub open spec fn next_request(flow: RequestFlow, event: RequestEvent) -> (
    RequestFlow,
    RequestAction,
) {
    match (flow, event) {
        (RequestFlow::Received, RequestEvent::Checked(Ok(a))) => (
            RequestFlow::Checked(a),
            RequestAction::Authenticate,
        ),
        (RequestFlow::Received, RequestEvent::Checked(Err(e))) => (
            RequestFlow::Ended,
            RequestAction::Refuse(e),
        ),
        (RequestFlow::Checked(a), RequestEvent::Authenticated(Some(id))) => (
            RequestFlow::Authenticated { target: a.target, user_id: id },
            RequestAction::Route,
        ),
        (RequestFlow::Checked(a), RequestEvent::Authenticated(None)) => (
            RequestFlow::Ended,
            RequestAction::Refuse(RequestError::UnknownUser),
        ),
        (RequestFlow::Authenticated { target, user_id }, RequestEvent::Routed(route)) => if route
            is Reject {
            (RequestFlow::Ended, RequestAction::Reject)
        } else {
            (RequestFlow::Accepted { target, user_id, route }, RequestAction::Accept)
        },
        (RequestFlow::Accepted { target, user_id, route }, RequestEvent::Answered(sent)) => (
            RequestFlow::Ended,
            if sent {
                RequestAction::Tunnel { target, user_id, route }
            } else {
                RequestAction::Abandon
            },
        ),
        _ => (flow, RequestAction::Ignore),
    }
}

impl RequestFlow {
    /// A request that has come in.
    pub fn new() -> (r: Self)
        ensures
            r == RequestFlow::Received,
    {
        RequestFlow::Received
    }

    /// The credential whose user is awaited.
    pub fn credential(&self) -> (r: Option<&str>)
        ensures
            str_view(r) == (match self {
                RequestFlow::Checked(a) => Some(a.credential@),
                _ => None,
            }),
    {
        match self {
            RequestFlow::Checked(a) => Some(a.credential.as_str()),
            _ => None,
        }
    }

    /// The target whose route is awaited.
    pub fn target(&self) -> (r: Option<&Address>)
        ensures
            r == (match self {
                RequestFlow::Authenticated { target, .. } => Some(target),
                _ => None,
            }),
    {
        match self {
            RequestFlow::Authenticated { target, .. } => Some(target),
            _ => None,
        }
    }

    /// Takes what the form of the request comes to.
    pub fn on_checked(self, checked: Result<Admitted, RequestError>) -> (r: (Self, RequestAction))
        ensures
            r == next_request(self, RequestEvent::Checked(checked)),
    {
        match self {
            RequestFlow::Received => match checked {
                Ok(a) => (RequestFlow::Checked(a), RequestAction::Authenticate),
                Err(e) => (RequestFlow::Ended, RequestAction::Refuse(e)),
            },
            other => (other, RequestAction::Ignore),
        }
    }

    /// Takes the user that the credential belongs to.
    pub fn on_authenticated(self, user: Option<UserId>) -> (r: (Self, RequestAction))
        ensures
            r == next_request(self, RequestEvent::Authenticated(user)),
    {
        match self {
            RequestFlow::Checked(a) => match after_auth(user) {
                Ok(user_id) => (
                    RequestFlow::Authenticated { target: a.target, user_id },
                    RequestAction::Route,
                ),
                Err(e) => (RequestFlow::Ended, RequestAction::Refuse(e)),
            },
            other => (other, RequestAction::Ignore),
        }
    }

    /// Takes the route of the target.
    pub fn on_routed(self, route: OutboundType) -> (r: (Self, RequestAction))
        ensures
            r == next_request(self, RequestEvent::Routed(route)),
    {
        match self {
            RequestFlow::Authenticated { target, user_id } => if after_route(&route)
                == STATUS_FORBIDDEN {
                (RequestFlow::Ended, RequestAction::Reject)
            } else {
                (RequestFlow::Accepted { target, user_id, route }, RequestAction::Accept)
            },
            other => (other, RequestAction::Ignore),
        }
    }

    /// Takes whether the answer that lets the request in could be sent.
    pub fn on_answered(self, sent: bool) -> (r: (Self, RequestAction))
        ensures
            r == next_request(self, RequestEvent::Answered(sent)),
    {
        match self {
            RequestFlow::Accepted { target, user_id, route } => if sent {
                (RequestFlow::Ended, RequestAction::Tunnel { target, user_id, route })
            } else {
                (RequestFlow::Ended, RequestAction::Abandon)
            },
            other => (other, RequestAction::Ignore),
        }
    }
}

/// Where a request stands once it was told all of `events`.
pub open spec fn request_after(events: Seq<RequestEvent>) -> RequestFlow
    decreases events.len(),
{
    if events.len() == 0 {
        RequestFlow::Received
    } else {
        next_request(request_after(events.drop_last()), events.last()).0
    }
}

/// What is done for a request on the last of `events`.
pub open spec fn last_action(events: Seq<RequestEvent>) -> RequestAction {
    next_request(request_after(events.drop_last()), events.last()).1
}

/// The status that an action sends; none where it sends no answer.
pub open spec fn answer_of(action: RequestAction) -> Option<u16> {
    match action {
        RequestAction::Refuse(e) => refusal_status(e@),
        RequestAction::Reject => Some(STATUS_FORBIDDEN),
        RequestAction::Accept => Some(STATUS_OK),
        _ => None,
    }
}

/// The answers that a request gets in all.
pub open spec fn answers(events: Seq<RequestEvent>) -> Seq<u16>
    decreases events.len(),
{
    if events.len() == 0 {
        Seq::empty()
    } else {
        match answer_of(last_action(events)) {
            Some(status) => answers(events.drop_last()).push(status),
            None => answers(events.drop_last()),
        }
    }
}

/// Whether the form of the request was found right at `i`, with that target.
pub open spec fn checked_at(events: Seq<RequestEvent>, i: int, target: Address) -> bool {
    0 <= i < events.len() && (events[i] matches RequestEvent::Checked(Ok(a)) && a.target == target)
}

/// Whether the credential was found to be the user's at `i`.
pub open spec fn authenticated_at(events: Seq<RequestEvent>, i: int, user_id: UserId) -> bool {
    0 <= i < events.len() && events[i] == RequestEvent::Authenticated(Some(user_id))
}

/// Whether the router sent the target there at `i`, and the request was answered that it is let
/// in.
pub open spec fn accepted_at(events: Seq<RequestEvent>, i: int, route: OutboundType) -> bool {
    0 <= i < events.len() && events[i] == RequestEvent::Routed(route) && answer_of(
        last_action(events.take(i + 1)),
    ) == Some(STATUS_OK)
}

/// Whether the form was found right, with that target, and after it the credential, with that
/// user.
pub open spec fn known_user(events: Seq<RequestEvent>, target: Address, user_id: UserId) -> bool {
    exists|i: int, j: int|
        i < j && #[trigger] checked_at(events, i, target) && #[trigger] authenticated_at(
            events,
            j,
            user_id,
        )
}

/// Whether the form was found right, after it the credential, and after both the router let the
/// request through and it was answered so.
pub open spec fn let_in(
    events: Seq<RequestEvent>,
    target: Address,
    user_id: UserId,
    route: OutboundType,
) -> bool {
    exists|k: int|
        #[trigger] accepted_at(events, k, route) && !(route is Reject) && known_user(
            events.take(k),
            target,
            user_id,
        )
}

proof fn lemma_known_user_stays(
    events: Seq<RequestEvent>,
    n: int,
    target: Address,
    user_id: UserId,
)
    requires
        0 <= n <= events.len(),
        known_user(events.take(n), target, user_id),
    ensures
        known_user(events, target, user_id),
{
    let init = events.take(n);
    let (i, j) = choose|i: int, j: int|
        i < j && #[trigger] checked_at(init, i, target) && #[trigger] authenticated_at(
            init,
            j,
            user_id,
        );
    assert(checked_at(events, i, target) && authenticated_at(events, j, user_id));
}

proof fn lemma_let_in_stays(
    events: Seq<RequestEvent>,
    n: int,
    target: Address,
    user_id: UserId,
    route: OutboundType,
)
    requires
        0 <= n <= events.len(),
        let_in(events.take(n), target, user_id, route),
    ensures
        let_in(events, target, user_id, route),
{
    let init = events.take(n);
    let k = choose|k: int|
        #[trigger] accepted_at(init, k, route) && !(route is Reject) && known_user(
            init.take(k),
            target,
            user_id,
        );
    assert(init.take(k) =~= events.take(k));
    assert(init.take(k + 1) =~= events.take(k + 1));
    assert(accepted_at(events, k, route));
}

/// What the state of a request holds is what the request was told, in this order.
proof fn lemma_request_history(events: Seq<RequestEvent>)
    ensures
        match request_after(events) {
            RequestFlow::Received => true,
            RequestFlow::Checked(a) => exists|i: int| checked_at(events, i, a.target),
            RequestFlow::Authenticated { target, user_id } => known_user(events, target, user_id),
            RequestFlow::Accepted { target, user_id, route } => let_in(
                events,
                target,
                user_id,
                route,
            ),
            RequestFlow::Ended => true,
        },
    decreases events.len(),
{
    if events.len() > 0 {
        let init = events.drop_last();
        let n = init.len() as int;
        assert(events.take(n) =~= init);
        lemma_request_history(init);
        match request_after(init) {
            RequestFlow::Received => {
                if let RequestFlow::Checked(a) = request_after(events) {
                    assert(checked_at(events, n, a.target));
                }
            },
            RequestFlow::Checked(a) => {
                let i = choose|i: int| checked_at(init, i, a.target);
                assert(checked_at(events, i, a.target));
                if let RequestFlow::Authenticated { target, user_id } = request_after(events) {
                    assert(authenticated_at(events, n, user_id));
                }
            },
            RequestFlow::Authenticated { target, user_id } => {
                lemma_known_user_stays(events, n, target, user_id);
                if let RequestFlow::Accepted { target: _, user_id: _, route } = request_after(
                    events,
                ) {
                    assert(events.take(n + 1) =~= events);
                    assert(accepted_at(events, n, route));
                }
            },
            RequestFlow::Accepted { target, user_id, route } => {
                lemma_let_in_stays(events, n, target, user_id, route);
            },
            RequestFlow::Ended => {},
        }
    }
}

/// The router is asked about a target only once the request's form was found right, with that
/// target, and its credential was then found to be a user's.
pub proof fn law_route_follows_user(events: Seq<RequestEvent>)
    requires
        events.len() > 0,
        last_action(events) is Route,
    ensures
        request_after(events) matches RequestFlow::Authenticated { target, user_id } && known_user(
            events,
            target,
            user_id,
        ) && events.last() == RequestEvent::Authenticated(Some(user_id)),
{
    lemma_request_history(events);
}

/// A tunnel is opened only once the answer was sent. Before that the form was found right, then
/// the credential, and then the router let the request through, which was answered 200; target,
/// user and route of the tunnel are those.
pub proof fn law_tunnel_follows_answer(events: Seq<RequestEvent>)
    requires
        events.len() > 0,
        last_action(events) is Tunnel,
    ensures
        events.last() == RequestEvent::Answered(true),
        last_action(events) matches RequestAction::Tunnel { target, user_id, route } && let_in(
            events.drop_last(),
            target,
            user_id,
            route,
        ),
{
    lemma_request_history(events.drop_last());
}

/// A request is answered at most once: not before its user and its route are known unless it is
/// refused, and a tunnel is opened on a single 200.
pub proof fn law_one_answer(events: Seq<RequestEvent>)
    ensures
        answers(events).len() <= 1,
        match request_after(events) {
            RequestFlow::Received => answers(events) == Seq::<u16>::empty(),
            RequestFlow::Checked(_) => answers(events) == Seq::<u16>::empty(),
            RequestFlow::Authenticated { .. } => answers(events) == Seq::<u16>::empty(),
            RequestFlow::Accepted { .. } => answers(events) == seq![STATUS_OK],
            RequestFlow::Ended => true,
        },
        events.len() > 0 && last_action(events) is Tunnel ==> answers(events) == seq![STATUS_OK],
    decreases events.len(),
{
    if events.len() > 0 {
        law_one_answer(events.drop_last());
        assert(Seq::<u16>::empty().push(STATUS_OK) =~= seq![STATUS_OK]);
    }
}

/// Whether an authority names an address.
pub open spec fn names_address(authority: Option<Seq<char>>) -> bool {
    authority matches Some(a) && crate::proxy_core::address::authority_value(a) is Some
}

/// Whether an authorization header shows a credential.
pub open spec fn shows_credential(auth: Option<Seq<char>>) -> bool {
    auth matches Some(a) && header_auth(a) is Ok
}

/// A request is let in if and only if it is a CONNECT with a padding header, names an address,
/// and shows a credential.
pub proof fn law_only_full_requests_admitted(
    method: Seq<u8>,
    has_padding: bool,
    authority: Option<Seq<char>>,
    auth: Option<Seq<char>>,
)
    ensures
        admission(method, has_padding, authority, auth) is Ok <==> method == connect_method()
            && has_padding && names_address(authority) && shows_credential(auth),
{
}

/// A refused request is answered 405 if and only if it is no CONNECT; else 400 if and only if it
/// has no padding header; else nothing if and only if it names no address; else 407.
pub proof fn law_answers_to_refused_requests(
    method: Seq<u8>,
    has_padding: bool,
    authority: Option<Seq<char>>,
    auth: Option<Seq<char>>,
)
    ensures
        admission(method, has_padding, authority, auth) matches Err(e) ==> refusal_status(e) == (
        if method != connect_method() {
            Some(405u16)
        } else if !has_padding {
            Some(400u16)
        } else if !names_address(authority) {
            None
        } else {
            Some(407u16)
        }),
{
}

/// The headers of the answer to a request that is let in: the status and the padding.
pub fn accepted_headers(rng: &mut PaddingRng) -> (r: Vec<(&'static str, String)>)
    ensures
        r@.len() == 2,
        r@[0].0@ == ":status"@ && r@[0].1@ == "200"@,
        r@[1].0@ == "padding"@ && r@[1].1@ == crate::transport::padding::padding_header(
            old(rng).state,
        ),
        final(rng).state == crate::transport::padding::state_after(old(rng).state, 9),
{
    let padding: String = generate_padding_header(rng);
    let mut out: Vec<(&'static str, String)> = Vec::new();
    out.push((":status", text::owned("200")));
    out.push(("padding", padding));
    out
}

/// What is done with an open tunnel.
pub enum TunnelPlan {
    /// It carries datagrams.
    Uot(UotVersion),
    /// It is connected directly.
    Direct { resolved: Option<Vec<IpAddr>>, dialer: Option<Arc<OutboundHandler>> },
    /// It is connected through a proxy.
    Proxy(Arc<OutboundHandler>),
    /// It is closed.
    Close,
}

/// What is done with a tunnel to that target by that route.
pub open spec fn planned_tunnel(
    target: crate::proxy_core::address::AddressView,
    route: OutboundType,
) -> TunnelPlan {
    match crate::uot::uot_version(crate::proxy_core::address::host_text(target)) {
        Some(v) => TunnelPlan::Uot(v),
        None => match route {
            OutboundType::Direct { resolved, dialer } => TunnelPlan::Direct { resolved, dialer },
            OutboundType::Proxy(h) => TunnelPlan::Proxy(h),
            OutboundType::Reject => TunnelPlan::Close,
        },
    }
}

/// What is done with a tunnel: a magic host carries datagrams, whatever the route is.
pub fn tunnel_plan(target: &Address, route: OutboundType) -> (r: TunnelPlan)
    ensures
        r == planned_tunnel(target@, route),
        match crate::uot::uot_version(crate::proxy_core::address::host_text(target@)) {
            Some(v) => r == TunnelPlan::Uot(v),
            None => match route {
                OutboundType::Direct { resolved, dialer } => r == (TunnelPlan::Direct {
                    resolved,
                    dialer,
                }),
                OutboundType::Proxy(h) => r == TunnelPlan::Proxy(h),
                OutboundType::Reject => r == TunnelPlan::Close,
            },
        },
{
    let host = target.host();
    let host_chars: Vec<char> = host_chars_of(&host);
    let host_text: String = text::string_of(host_chars.as_slice());
    if let Some(v) = detect_uot(host_text.as_str()) {
        return TunnelPlan::Uot(v);
    }
    match route {
        OutboundType::Direct { resolved, dialer } => TunnelPlan::Direct { resolved, dialer },
        OutboundType::Proxy(h) => TunnelPlan::Proxy(h),
        OutboundType::Reject => TunnelPlan::Close,
    }
}

/// An open tunnel and its place among the connections.
#[derive(Debug, Clone, Copy, PartialEq, Eq, Structural)]
pub enum TunnelFlow {
    /// It is open, and not yet among the connections.
    Opened { user_id: UserId },
    /// It is among the connections, and its request is not yet counted.
    Registered { user_id: UserId, id: ConnectionId },
    /// Its request is counted, and it is served.
    Serving { id: ConnectionId },
    /// It is over.
    Closed,
}

/// What a tunnel is told.
pub enum TunnelEvent {
    /// It was registered under this number.
    Registered(ConnectionId),
    /// Its request was counted.
    Recorded,
    /// It is over, whatever ended it: its dialing failed, a side closed, it was cancelled, or its
    /// task was dropped.
    Ended,
}

/// What is done next for a tunnel.
#[derive(Debug, Clone, Copy, PartialEq, Eq, Structural)]
pub enum TunnelAction {
    /// Register a connection of the user.
    Register(UserId),
    /// Count a request of the user.
    Record(UserId),
    /// Do what the plan of the tunnel says.
    Serve,
    /// Take the connection out again.
    Unregister(ConnectionId),
    /// Nothing.
    Ignore,
}

/// Where a tunnel stands after it was told something, and what is done next for it.
pub open spec fn next_tunnel(flow: TunnelFlow, event: TunnelEvent) -> (TunnelFlow, TunnelAction) {
    match (flow, event) {
        (TunnelFlow::Opened { user_id }, TunnelEvent::Registered(id)) => (
            TunnelFlow::Registered { user_id, id },
            TunnelAction::Record(user_id),
        ),
        (TunnelFlow::Opened { user_id }, TunnelEvent::Ended) => (
            TunnelFlow::Closed,
            TunnelAction::Ignore,
        ),
        (TunnelFlow::Registered { user_id, id }, TunnelEvent::Recorded) => (
            TunnelFlow::Serving { id },
            TunnelAction::Serve,
        ),
        (TunnelFlow::Registered { user_id, id }, TunnelEvent::Ended) => (
            TunnelFlow::Closed,
            TunnelAction::Unregister(id),
        ),
        (TunnelFlow::Serving { id }, TunnelEvent::Ended) => (
            TunnelFlow::Closed,
            TunnelAction::Unregister(id),
        ),
        _ => (flow, TunnelAction::Ignore),
    }
}

impl TunnelFlow {
    /// An open tunnel of the user.
    pub fn open(user_id: UserId) -> (r: (Self, TunnelAction))
        ensures
            r == (TunnelFlow::Opened { user_id }, TunnelAction::Register(user_id)),
    {
        (TunnelFlow::Opened { user_id }, TunnelAction::Register(user_id))
    }

    /// Takes the number that the tunnel is registered under.
    pub fn on_registered(self, id: ConnectionId) -> (r: (Self, TunnelAction))
        ensures
            r == next_tunnel(self, TunnelEvent::Registered(id)),
    {
        match self {
            TunnelFlow::Opened { user_id } => (
                TunnelFlow::Registered { user_id, id },
                TunnelAction::Record(user_id),
            ),
            other => (other, TunnelAction::Ignore),
        }
    }

    /// Takes that the request was counted.
    pub fn on_recorded(self) -> (r: (Self, TunnelAction))
        ensures
            r == next_tunnel(self, TunnelEvent::Recorded),
    {
        match self {
            TunnelFlow::Registered { user_id: _, id } => (
                TunnelFlow::Serving { id },
                TunnelAction::Serve,
            ),
            other => (other, TunnelAction::Ignore),
        }
    }

    /// Takes that the tunnel is over.
    pub fn on_ended(self) -> (r: (Self, TunnelAction))
        ensures
            r == next_tunnel(self, TunnelEvent::Ended),
    {
        match self {
            TunnelFlow::Registered { user_id: _, id } => (
                TunnelFlow::Closed,
                TunnelAction::Unregister(id),
            ),
            TunnelFlow::Serving { id } => (TunnelFlow::Closed, TunnelAction::Unregister(id)),
            _ => (TunnelFlow::Closed, TunnelAction::Ignore),
        }
    }
}

/// Where the user's tunnel stands once it was told all of `events`.
pub open spec fn tunnel_after(user_id: UserId, events: Seq<TunnelEvent>) -> TunnelFlow
    decreases events.len(),
{
    if events.len() == 0 {
        TunnelFlow::Opened { user_id }
    } else {
        next_tunnel(tunnel_after(user_id, events.drop_last()), events.last()).0
    }
}

/// All that is done for the user's tunnel, in order.
pub open spec fn tunnel_actions(user_id: UserId, events: Seq<TunnelEvent>) -> Seq<TunnelAction>
    decreases events.len(),
{
    if events.len() == 0 {
        seq![TunnelAction::Register(user_id)]
    } else {
        let done = tunnel_actions(user_id, events.drop_last());
        match next_tunnel(tunnel_after(user_id, events.drop_last()), events.last()).1 {
            TunnelAction::Ignore => done,
            action => done.push(action),
        }
    }
}

/// A tunnel is registered once, its request is counted once, and only then it is served. Whatever
/// ends it, the last thing done for it is to take its connection out, once, under the number that
/// it was registered with.
pub proof fn law_tunnel_is_unregistered(
    user_id: UserId,
    id: ConnectionId,
    events: Seq<TunnelEvent>,
)
    requires
        events.len() > 0,
        events[0] == TunnelEvent::Registered(id),
    ensures
        ({
            let counted = seq![TunnelAction::Register(user_id), TunnelAction::Record(user_id)];
            let served = counted.push(TunnelAction::Serve);
            let done = tunnel_actions(user_id, events);
            if events.contains(TunnelEvent::Ended) {
                &&& tunnel_after(user_id, events) is Closed
                &&& done == counted.push(TunnelAction::Unregister(id)) || done == served.push(
                    TunnelAction::Unregister(id),
                )
            } else {
                ||| tunnel_after(user_id, events) == (TunnelFlow::Registered { user_id, id })
                    && done == counted
                ||| tunnel_after(user_id, events) == (TunnelFlow::Serving { id }) && done == served
            }
        }),
    decreases events.len(),
{
    let init = events.drop_last();
    let counted = seq![TunnelAction::Register(user_id), TunnelAction::Record(user_id)];
    if events.len() == 1 {
        assert(events.last() == TunnelEvent::Registered(id));
        assert(tunnel_after(user_id, init) == (TunnelFlow::Opened { user_id }));
        assert(tunnel_actions(user_id, init) == seq![TunnelAction::Register(user_id)]);
        assert(tunnel_actions(user_id, events) =~= counted);
    } else {
        law_tunnel_is_unregistered(user_id, id, init);
        assert forall|e: TunnelEvent| events.contains(e) == (init.contains(e) || events.last()
            == e) by {
            if init.contains(e) {
                let i = choose|i: int| 0 <= i < init.len() && init[i] == e;
                assert(events[i] == e);
            }
            if events.contains(e) && events.last() != e {
                let i = choose|i: int| 0 <= i < events.len() && events[i] == e;
                assert(init[i] == e);
            }
            if events.last() == e {
                assert(events[events.len() - 1] == e);
            }
        }
    }
}

/// For a tunnel that was never registered nothing is counted and nothing taken out.
pub proof fn law_unregistered_tunnel_does_nothing(user_id: UserId, events: Seq<TunnelEvent>)
    requires
        forall|i: int| 0 <= i < events.len() ==> !(#[trigger] events[i] is Registered),
    ensures
        tunnel_actions(user_id, events) == seq![TunnelAction::Register(user_id)],
        tunnel_after(user_id, events) is Opened || tunnel_after(user_id, events) is Closed,
    decreases events.len(),
{
    if events.len() > 0 {
        let init = events.drop_last();
        assert forall|i: int| 0 <= i < init.len() implies !(#[trigger] init[i] is Registered) by {
            assert(init[i] == events[i]);
        }
        assert(!(events[events.len() - 1] is Registered));
        law_unregistered_tunnel_does_nothing(user_id, init);
    }
}

fn host_chars_of(host: &std::borrow::Cow<'_, str>) -> (r: Vec<char>)
    ensures
        r@ == host@,
{
    match host {
        std::borrow::Cow::Borrowed(s) => text::chars_of(s),
        std::borrow::Cow::Owned(s) => text::chars_of(s.as_str()),
    }
}

/// How a tunnel is dialed.
pub enum DialPlan {
    /// Through an outbound, which gets the host, the port and the checked addresses.
    Outbound { handler: Arc<OutboundHandler>, host: String, port: u16, ips: Option<Vec<IpAddr>> },
    /// By a bare connect to this address.
    Connect(SocketAddr),
    /// By a bare connect once the host has been looked up.
    Lookup,
    /// Not at all: the check left no address.
    NoAddress,
}

/// How a tunnel is dialed.
pub enum DialView {
    Outbound(Arc<OutboundHandler>, Seq<char>, u16, Option<Vec<IpAddr>>),
    Connect(IpAddr, u16),
    Lookup,
    NoAddress,
}

impl View for DialPlan {
    type V = DialView;

    open spec fn view(&self) -> DialView {
        match self {
            DialPlan::Outbound { handler, host, port, ips } => DialView::Outbound(
                *handler,
                host@,
                *port,
                *ips,
            ),
            DialPlan::Connect(a) => DialView::Connect(a.ip, a.port),
            DialPlan::Lookup => DialView::Lookup,
            DialPlan::NoAddress => DialView::NoAddress,
        }
    }
}

/// How a direct tunnel is dialed.
pub open spec fn direct_dial(
    target: crate::proxy_core::address::AddressView,
    resolved: Option<Vec<IpAddr>>,
    dialer: Option<Arc<OutboundHandler>>,
) -> DialView {
    match (dialer, resolved) {
        (Some(h), _) => DialView::Outbound(
            h,
            crate::proxy_core::address::host_text(target),
            crate::proxy_core::address::port_of(target),
            resolved,
        ),
        (None, Some(found)) => if found@.len() > 0 {
            DialView::Connect(found@[0], crate::proxy_core::address::port_of(target))
        } else {
            DialView::NoAddress
        },
        (None, None) => DialView::Lookup,
    }
}

/// How a direct tunnel is dialed: through its dialer if it has one, else to the first of the
/// checked addresses, else, where nothing was checked, to what a lookup finds.
pub fn direct_plan(
    target: &Address,
    resolved: Option<Vec<IpAddr>>,
    dialer: Option<Arc<OutboundHandler>>,
) -> (r: DialPlan)
    ensures
        r@ == direct_dial(target@, resolved, dialer),
        match dialer {
            Some(h) => {
                &&& r matches DialPlan::Outbound { handler, host, port, ips }
                &&& handler == h
                &&& host@ == crate::proxy_core::address::host_text(target@)
                &&& port == crate::proxy_core::address::port_of(target@)
                &&& ips == resolved
            },
            None => match resolved {
                Some(found) => if found@.len() > 0 {
                    r matches DialPlan::Connect(a) && a.ip == found@[0] && a.port
                        == crate::proxy_core::address::port_of(target@)
                } else {
                    r is NoAddress
                },
                None => r is Lookup,
            },
        },
{
    match dialer {
        Some(handler) => {
            let host = target.host();
            DialPlan::Outbound {
                handler,
                host: text::string_of(host_chars_of(&host).as_slice()),
                port: target.port(),
                ips: resolved,
            }
        },
        None => match resolved {
            Some(found) => if found.len() > 0 {
                DialPlan::Connect(SocketAddr { ip: found[0], port: target.port() })
            } else {
                DialPlan::NoAddress
            },
            None => DialPlan::Lookup,
        },
    }
}

/// How a tunnel through a proxy is dialed: the proxy gets the host and the port, and looks the
/// host up itself.
pub fn proxy_plan(target: &Address, handler: Arc<OutboundHandler>) -> (r: DialPlan)
    ensures
        r matches DialPlan::Outbound { handler: h, host, port, ips } && h == handler && host@
            == crate::proxy_core::address::host_text(target@) && port
            == crate::proxy_core::address::port_of(target@) && ips is None,
{
    let host = target.host();
    DialPlan::Outbound {
        handler,
        host: text::string_of(host_chars_of(&host).as_slice()),
        port: target.port(),
        ips: None,
    }
}

/// Which way a tunnel was dialed.
#[derive(Debug, Clone, Copy, PartialEq, Eq, Structural)]
pub enum DialWay {
    Direct,
    Tcp,
    Proxy,
}

/// The text of a dial that failed with the given error, or timed out.
pub open spec fn dial_failure_text(way: DialWay, error: Option<Seq<char>>) -> Seq<char> {
    match (way, error) {
        (DialWay::Direct, Some(e)) => "Direct connect failed: "@ + e,
        (DialWay::Direct, None) => "Direct connect timeout"@,
        (DialWay::Tcp, Some(e)) => e,
        (DialWay::Tcp, None) => "TCP connect timeout"@,
        (DialWay::Proxy, Some(e)) => "Proxy connect failed: "@ + e,
        (DialWay::Proxy, None) => "Proxy connect timeout"@,
    }
}

/// The text of a dial that failed with the given error, or timed out.
pub fn dial_failure(way: DialWay, error: Option<&str>) -> (r: String)
    ensures
        r@ == dial_failure_text(way, str_view(error)),
{
    match (way, error) {
        (DialWay::Direct, Some(e)) => text::concat("Direct connect failed: ", e),
        (DialWay::Direct, None) => text::owned("Direct connect timeout"),
        (DialWay::Tcp, Some(e)) => text::owned(e),
        (DialWay::Tcp, None) => text::owned("TCP connect timeout"),
        (DialWay::Proxy, Some(e)) => text::concat("Proxy connect failed: ", e),
        (DialWay::Proxy, None) => text::owned("Proxy connect timeout"),
    }
}

/// Size of the pipe between a tunnel and its session: that of the relay's buffer, but at least
/// that of the bridge's.
pub fn tunnel_buffer(buffer_size: usize, bridge_buf: usize) -> (r: usize)
    ensures
        r == if buffer_size > bridge_buf {
            buffer_size
        } else {
            bridge_buf
        },
{
    if buffer_size > bridge_buf {
        buffer_size
    } else {
        bridge_buf
    }
}

/// An authorization header around an encoded part, with white space around that.
pub open spec fn basic_header(front: Seq<char>, body: Seq<char>, back: Seq<char>) -> Seq<char> {
    "Basic "@ + (front + body + back)
}

/// Whether a text is an encoded part with nothing but white space around it.
pub open spec fn is_encoded_part(front: Seq<char>, body: Seq<char>, back: Seq<char>) -> bool {
    &&& text::all_white_space(front)
    &&& text::all_white_space(back)
    &&& body.len() > 0 ==> !text::is_white_space(body[0]) && !text::is_white_space(body.last())
}

proof fn lemma_basic_body(front: Seq<char>, body: Seq<char>, back: Seq<char>)
    requires
        is_encoded_part(front, body, back),
    ensures
        basic_body(basic_header(front, body, back)) == Some(body),
{
    let h = basic_header(front, body, back);
    reveal_strlit("Basic ");
    assert(h.take(6) =~= "Basic "@);
    assert(h.skip(6) =~= front + body + back);
    text::law_trimming_leaves_the_text(front, body, back);
}

/// The credential of a whole authorization header is exactly what follows the first colon of what
/// its encoded part decodes to, whatever its length and whatever it holds, more colons among it.
pub proof fn law_header_shows_the_password(
    front: Seq<char>,
    body: Seq<char>,
    back: Seq<char>,
    user: Seq<char>,
    secret: Seq<char>,
)
    requires
        is_encoded_part(front, body, back),
        !user.contains(':'),
        base64_bytes(body) == Ok::<_, Seq<char>>(
            vstd::utf8::encode_utf8(user + seq![':'] + secret),
        ),
    ensures
        header_auth(basic_header(front, body, back)) == Ok::<_, AuthErrorView>(secret),
{
    lemma_basic_body(front, body, back);
    law_password_follows_first_colon(user, secret);
}

/// Where what the encoded part decodes to holds no colon, all of it is the credential.
pub proof fn law_header_without_colon_is_the_credential(
    front: Seq<char>,
    body: Seq<char>,
    back: Seq<char>,
    secret: Seq<char>,
)
    requires
        is_encoded_part(front, body, back),
        !secret.contains(':'),
        base64_bytes(body) == Ok::<_, Seq<char>>(vstd::utf8::encode_utf8(secret)),
    ensures
        header_auth(basic_header(front, body, back)) == Ok::<_, AuthErrorView>(secret),
{
    lemma_basic_body(front, body, back);
    vstd::utf8::encode_utf8_valid_utf8(secret);
    vstd::utf8::encode_utf8_decode_utf8(secret);
    text::law_first_index(secret, ':');
}

/// A header fails for its own reason only: no prefix, a part that does not decode, or bytes that
/// are no text; the reason says what the decoder said.
pub proof fn law_header_fails_for_a_reason(header: Seq<char>)
    ensures
        header_auth(header) == Err::<Seq<char>, _>(AuthErrorView::MissingPrefix) <==> !(
        "Basic "@.is_prefix_of(header)),
        "Basic "@.is_prefix_of(header) ==> match base64_bytes(text::trimmed(header.skip(6))) {
            Err(e) => header_auth(header) == Err::<Seq<char>, _>(AuthErrorView::Base64(e)),
            Ok(b) => if vstd::utf8::valid_utf8(b) {
                header_auth(header) is Ok
            } else {
                header_auth(header) == Err::<Seq<char>, _>(
                    AuthErrorView::Utf8(text::utf8_error(b)),
                )
            },
        },
{
    reveal_strlit("Basic ");
    if "Basic "@.is_prefix_of(header) {
        assert(header.take(6) =~= "Basic "@);
    } else if header.len() >= 6 && header.take(6) == "Basic "@ {
        assert("Basic "@ =~= header.subrange(0, 6));
    }
}

/// The word is the seven letters of CONNECT.
pub proof fn law_connect_is_spelled()
    ensures
        connect_method() == "CONNECT"@.map_values(|c: char| c as u8),
{
    reveal_strlit("CONNECT");
    assert(connect_method() =~= "CONNECT"@.map_values(|c: char| c as u8));
}

/// A request that is let in goes where its authority says and shows the credential of its header,
/// both unchanged.
pub proof fn law_admission_hands_on(
    target: crate::proxy_core::address::AddressView,
    front: Seq<char>,
    body: Seq<char>,
    back: Seq<char>,
    user: Seq<char>,
    secret: Seq<char>,
)
    requires
        match target {
            crate::proxy_core::address::AddressView::IPv4(o, _) => o.len() == 4,
            crate::proxy_core::address::AddressView::IPv6(o, _) => o.len() == 16,
            crate::proxy_core::address::AddressView::Domain(d, _) => (d.len() > 0 ==> d[0] != '[')
                && crate::proxy_core::ip::ipv4_value(d) is None,
        },
        is_encoded_part(front, body, back),
        !user.contains(':'),
        base64_bytes(body) == Ok::<_, Seq<char>>(
            vstd::utf8::encode_utf8(user + seq![':'] + secret),
        ),
    ensures
        admission(
            connect_method(),
            true,
            Some(crate::proxy_core::address::address_text(target)),
            Some(basic_header(front, body, back)),
        ) == Ok::<_, RequestErrorView>((target, secret)),
{
    crate::proxy_core::address::law_authority_round_trip(target);
    law_header_shows_the_password(front, body, back, user, secret);
}

/// What a request that is let in is taken to ask for and to show is what its authority and its
/// header say, and a refusal names the first thing that is wrong.
pub proof fn law_admission_follows_the_request(
    method: Seq<u8>,
    has_padding: bool,
    authority: Option<Seq<char>>,
    auth: Option<Seq<char>>,
)
    ensures
        match admission(method, has_padding, authority, auth) {
            Ok(r) => {
                &&& authority matches Some(a) && crate::proxy_core::address::authority_value(a)
                    == Some(r.0)
                &&& auth matches Some(h) && header_auth(h) == Ok::<_, AuthErrorView>(r.1)
                &&& method == connect_method() && has_padding
            },
            Err(RequestErrorView::Method(m)) => m == method && method != connect_method(),
            Err(RequestErrorView::MissingPadding) => method == connect_method() && !has_padding,
            Err(RequestErrorView::MissingAuthority) => method == connect_method() && has_padding
                && authority is None,
            Err(RequestErrorView::InvalidTarget(t)) => method == connect_method() && has_padding
                && authority == Some(t) && crate::proxy_core::address::authority_value(t) is None,
            Err(RequestErrorView::MissingAuth) => method == connect_method() && has_padding
                && names_address(authority) && auth is None,
            Err(RequestErrorView::BadAuth(e)) => method == connect_method() && has_padding
                && names_address(authority) && (auth matches Some(h) && header_auth(h) == Err::<
                Seq<char>,
                _,
            >(e)),
            Err(RequestErrorView::UnknownUser) => false,
        },
{
}

/// Each refusal has its status: 405 for a method, 400 for missing padding, 407 for whatever is
/// wrong with the credential, and none for a bad authority.
pub proof fn law_refusals_have_statuses(e: RequestErrorView)
    ensures
        refusal_status(e) == Some(405u16) <==> e is Method,
        refusal_status(e) == Some(400u16) <==> e is MissingPadding,
        refusal_status(e) == Some(407u16) <==> e is MissingAuth || e is BadAuth || e is UnknownUser,
        refusal_status(e) is None <==> e is MissingAuthority || e is InvalidTarget,
{
}

/// The value of a header is that of the first header of the name, and of no other; there is none
/// exactly if no header has the name.
pub proof fn law_first_header_counts(headers: Seq<WireHeader>, name: Seq<u8>, k: int)
    requires
        0 <= k <= headers.len(),
        forall|i: int| 0 <= i < k ==> (#[trigger] headers[i]).name@ != name,
        k < headers.len() ==> headers[k].name@ == name,
    ensures
        header_value(headers, name) == (if k < headers.len() {
            Some(headers[k].value@)
        } else {
            None
        }),
    decreases k,
{
    if k > 0 {
        let rest = headers.skip(1);
        assert(headers[0].name@ != name);
        assert forall|i: int| 0 <= i < k - 1 implies (#[trigger] rest[i]).name@ != name by {
            assert(headers[i + 1].name@ != name);
        }
        law_first_header_counts(rest, name, k - 1);
    }
}

/// A request on the wire is judged by its method, its authority and its authorization header as
/// texts, and by whether it has a padding header; a method that is missing is no CONNECT.
pub proof fn law_wire_requests_are_judged_alike(
    headers: Seq<WireHeader>,
    method: Seq<u8>,
    padding: Seq<u8>,
    authority: Seq<char>,
    auth: Seq<char>,
)
    requires
        header_value(headers, vstd::utf8::encode_utf8(":method"@)) == Some(method),
        header_value(headers, vstd::utf8::encode_utf8("padding"@)) == Some(padding),
        header_value(headers, vstd::utf8::encode_utf8(":authority"@)) == Some(
            vstd::utf8::encode_utf8(authority),
        ),
        header_value(headers, vstd::utf8::encode_utf8("proxy-authorization"@)) == Some(
            vstd::utf8::encode_utf8(auth),
        ),
    ensures
        wire_admission(headers) == admission(method, true, Some(authority), Some(auth)),
{
    vstd::utf8::encode_utf8_valid_utf8(authority);
    vstd::utf8::encode_utf8_decode_utf8(authority);
    vstd::utf8::encode_utf8_valid_utf8(auth);
    vstd::utf8::encode_utf8_decode_utf8(auth);
}

/// A request on the wire without one of what it needs is refused for that, the first that is
/// missing in the order of method, padding, authority and authorization; a value that is no text
/// counts as missing.
pub proof fn law_wire_requests_need_their_headers(headers: Seq<WireHeader>)
    ensures
        ({
            let method = header_value(headers, vstd::utf8::encode_utf8(":method"@));
            let padding = header_value(headers, vstd::utf8::encode_utf8("padding"@));
            let authority = header_value(headers, vstd::utf8::encode_utf8(":authority"@));
            let auth = header_value(headers, vstd::utf8::encode_utf8("proxy-authorization"@));
            let no_text = |v: Option<Seq<u8>>|
                v is None || !vstd::utf8::valid_utf8(v->0);
            &&& method != Some(connect_method()) ==> wire_admission(headers) is Err
                && wire_admission(headers)->Err_0 is Method
            &&& method == Some(connect_method()) && padding is None ==> wire_admission(headers)
                == Err::<(crate::proxy_core::address::AddressView, Seq<char>), _>(
                RequestErrorView::MissingPadding,
            )
            &&& method == Some(connect_method()) && padding is Some && no_text(authority)
                ==> wire_admission(headers) == Err::<
                (crate::proxy_core::address::AddressView, Seq<char>),
                _,
            >(RequestErrorView::MissingAuthority)
            &&& wire_admission(headers) is Ok ==> !no_text(auth)
        }),
{
    assert(connect_method().len() == 7);
}

/// The way of a request that is right in all: it is looked up, routed, answered and tunneled, with
/// the target, the user and the route that it was told.
pub proof fn law_right_requests_get_through(a: Admitted, user_id: UserId, route: OutboundType)
    requires
        !(route is Reject),
    ensures
        ({
            let s0 = RequestFlow::Received;
            let (s1, a1) = next_request(s0, RequestEvent::Checked(Ok(a)));
            let (s2, a2) = next_request(s1, RequestEvent::Authenticated(Some(user_id)));
            let (s3, a3) = next_request(s2, RequestEvent::Routed(route));
            let (s4, a4) = next_request(s3, RequestEvent::Answered(true));
            &&& a1 is Authenticate && (s1 matches RequestFlow::Checked(b) && b == a)
            &&& a2 is Route && (s2 matches RequestFlow::Authenticated { target, user_id: u }
                && target == a.target && u == user_id)
            &&& a3 is Accept && !(s3 is Ended)
            &&& a4 == (RequestAction::Tunnel { target: a.target, user_id, route })
            &&& s4 is Ended
        }),
{
}

/// A request that goes wrong ends there, with the answer that is due: the error of its form, an
/// unknown user, a rejection, or nothing where the answer cannot be sent; and once it has ended,
/// nothing that it is told does anything.
pub proof fn law_wrong_requests_end(
    a: Admitted,
    e: RequestError,
    user_id: UserId,
    route: OutboundType,
    event: RequestEvent,
)
    ensures
        next_request(RequestFlow::Received, RequestEvent::Checked(Err(e))) == (
            RequestFlow::Ended,
            RequestAction::Refuse(e),
        ),
        next_request(RequestFlow::Checked(a), RequestEvent::Authenticated(None)) == (
            RequestFlow::Ended,
            RequestAction::Refuse(RequestError::UnknownUser),
        ),
        next_request(
            RequestFlow::Authenticated { target: a.target, user_id },
            RequestEvent::Routed(OutboundType::Reject),
        ) == (RequestFlow::Ended, RequestAction::Reject),
        next_request(
            RequestFlow::Accepted { target: a.target, user_id, route },
            RequestEvent::Answered(false),
        ) == (RequestFlow::Ended, RequestAction::Abandon),
        next_request(RequestFlow::Ended, event) == (RequestFlow::Ended, RequestAction::Ignore),
{
}

/// The text of a dial that failed ends with the error as it came, and one that timed out says so.
pub proof fn law_dial_failures_keep_the_error(way: DialWay, e: Seq<char>)
    ensures
        e.is_suffix_of(dial_failure_text(way, Some(e))),
        way == DialWay::Tcp ==> dial_failure_text(way, Some(e)) == e,
        way == DialWay::Direct ==> "Direct connect failed: "@.is_prefix_of(
            dial_failure_text(way, Some(e)),
        ) && dial_failure_text(way, None) == "Direct connect timeout"@,
        way == DialWay::Proxy ==> "Proxy connect failed: "@.is_prefix_of(
            dial_failure_text(way, Some(e)),
        ) && dial_failure_text(way, None) == "Proxy connect timeout"@,
        way == DialWay::Tcp ==> dial_failure_text(way, None) == "TCP connect timeout"@,
{
}

/// The text of a bad credential ends with what the decoder said.
pub proof fn law_auth_errors_keep_the_cause(t: Seq<char>)
    ensures
        t.is_suffix_of(auth_error_text(AuthErrorView::Base64(t))),
        t.is_suffix_of(auth_error_text(AuthErrorView::Utf8(t))),
        "Base64 decode failed: "@.is_prefix_of(auth_error_text(AuthErrorView::Base64(t))),
        "UTF-8 decode failed: "@.is_prefix_of(auth_error_text(AuthErrorView::Utf8(t))),
{
}

/// A tunnel carries datagrams if and only if its host is a magic one, in any case, whatever its
/// route; else it goes the way of its route, with all that the route holds.
pub proof fn law_tunnels_go_their_way(
    target: crate::proxy_core::address::AddressView,
    route: OutboundType,
)
    ensures
        ({
            let plan = planned_tunnel(target, route);
            let host = text::ascii_lower(crate::proxy_core::address::host_text(target));
            let v2 = host == "sp.v2.udp-over-tcp.arpa"@;
            let v1 = host == "sp.udp-over-tcp.arpa"@;
            &&& v2 <==> plan == TunnelPlan::Uot(UotVersion::V2)
            &&& v1 <==> plan == TunnelPlan::Uot(UotVersion::V1)
            &&& !v1 && !v2 ==> match route {
                OutboundType::Direct { resolved, dialer } => plan == (TunnelPlan::Direct {
                    resolved,
                    dialer,
                }),
                OutboundType::Proxy(h) => plan == TunnelPlan::Proxy(h),
                OutboundType::Reject => plan is Close,
            }
        }),
{
    crate::uot::law_magic_hosts(crate::proxy_core::address::host_text(target));
}

/// A direct tunnel never passes over what it was given: its dialer dials if it has one, and gets
/// the host, the port and every checked address; a checked address is connected to, the first, at
/// the target's port; and only where nothing was checked the host is looked up.
pub proof fn law_dials_use_what_was_checked(
    target: crate::proxy_core::address::AddressView,
    resolved: Option<Vec<IpAddr>>,
    dialer: Option<Arc<OutboundHandler>>,
    port: u16,
)
    requires
        match target {
            crate::proxy_core::address::AddressView::IPv4(_, p) => p == port,
            crate::proxy_core::address::AddressView::IPv6(_, p) => p == port,
            crate::proxy_core::address::AddressView::Domain(_, p) => p == port,
        },
    ensures
        ({
            let plan = direct_dial(target, resolved, dialer);
            &&& plan is Outbound <==> dialer is Some
            &&& plan matches DialView::Outbound(h, host, p, ips) ==> Some(h) == dialer && p == port
                && ips == resolved && (target matches crate::proxy_core::address::AddressView::Domain(
                d,
                _,
            ) ==> host == d)
            &&& plan matches DialView::Connect(a, p) ==> p == port && (resolved matches Some(v)
                && v@.len() > 0 && v@[0] == a)
            &&& plan is Lookup <==> dialer is None && resolved is None
            &&& dialer is None && (resolved matches Some(v) && v@.len() > 0) ==> plan is Connect
        }),
{
    crate::proxy_core::address::law_address_text_is_host_and_port(target);
}

} // verus!
