//! What the handshake reads of an HTTP request: the `http` crate's `Request`, described
//! by its method, its path and its header fields.

use vstd::prelude::*;
use vstd::string::*;

verus! {

/// `http::Request`, a request with a body of type `T`.
#[verifier::external_type_specification]
#[verifier::external_body]
#[verifier::reject_recursive_types(T)]
pub struct ExRequest<T>(http::Request<T>);

/// `http::HeaderValue`, the bytes of a header field.
#[verifier::external_type_specification]
#[verifier::external_body]
pub struct ExHeaderValue(http::HeaderValue);

/// The method of a request.
pub uninterp spec fn request_method(req: http::Request<()>) -> Seq<char>;

/// The path of the URI of a request.
pub uninterp spec fn request_path(req: http::Request<()>) -> Seq<char>;

/// The header fields of a request: all the values under each lower-case name, in their
/// order.
pub uninterp spec fn request_fields(req: http::Request<()>) -> Map<Seq<char>, Seq<Seq<u8>>>;

/// The `:protocol` pseudo-header that the HTTP/3 layer keeps beside a request.
pub uninterp spec fn request_protocol(req: http::Request<()>) -> Option<Seq<char>>;

/// The bytes of a header field.
pub uninterp spec fn header_value_seq(v: http::HeaderValue) -> Seq<u8>;

/// Whether a byte is a visible ASCII character, a space or a tab.
pub open spec fn is_visible_ascii(b: u8) -> bool {
    32 <= b < 127 || b == 9
}

/// Whether a byte may stand in a header field.
pub open spec fn is_field_byte(b: u8) -> bool {
    (32 <= b && b != 127) || b == 9
}

/// Whether `name` is short ASCII text without upper-case letters and quotation marks, so
/// that it is looked up as it is.
pub open spec fn is_lookup_name(name: Seq<char>) -> bool {
    &&& 0 < name.len() <= 64
    &&& forall|i: int|
        0 <= i < name.len() ==> (#[trigger] name[i]) as u32 <= 127 && !('A' <= name[i] <= 'Z')
            && name[i] != '"'
}

/// Whether `name` is made of lower-case letters, digits and hyphens, and short.
pub open spec fn is_plain_name(name: Seq<char>) -> bool {
    &&& 0 < name.len() <= 64
    &&& forall|i: int|
        0 <= i < name.len() ==> ('a' <= #[trigger] name[i] <= 'z') || ('0' <= name[i] <= '9')
            || name[i] == '-'
}

/// The number of field names up to which a header map takes one more in every state.
pub const MAX_FIELD_NAMES: usize = 6553;

/// `Request::method` and `Method::as_str`: the method of the request.
#[verifier::external_body]
pub(crate) fn method_of(req: &http::Request<()>) -> (s: &str)
    ensures
        s@ == request_method(*req),
{
    req.method().as_str()
}

/// `Request::uri` and `Uri::path`: the path of the request.
#[verifier::external_body]
pub(crate) fn path_of(req: &http::Request<()>) -> (s: &str)
    ensures
        s@ == request_path(*req),
{
    req.uri().path()
}

/// `Request::headers` and `HeaderMap::get`: the first value of a field. A name that no
/// field can have finds nothing.
#[verifier::external_body]
pub(crate) fn field_of<'a>(req: &'a http::Request<()>, name: &str) -> (v: Option<
    &'a http::HeaderValue,
>)
    requires
        is_lookup_name(name@),
    ensures
        v is Some <==> request_fields(*req).contains_key(name@),
        v matches Some(value) ==> request_fields(*req)[name@].len() > 0 && header_value_seq(*value)
            == request_fields(*req)[name@][0],
{
    req.headers().get(name)
}

/// `Request::extensions`, `Extensions::get` and `Protocol::as_str` of the `h3` crate:
/// the `:protocol` pseudo-header of an extended CONNECT. The crate knows two of them.
#[verifier::external_body]
pub(crate) fn protocol_of(req: &http::Request<()>) -> (s: Option<&str>)
    ensures
        s is Some <==> request_protocol(*req) is Some,
        s matches Some(p) ==> request_protocol(*req) == Some(p@) && (p@ == "webtransport"@ || p@
            == "connect-udp"@),
{
    req.extensions().get::<h3::ext::Protocol>().map(|p| p.as_str())
}

/// `HeaderValue::to_str`: the field as text, when all its bytes are visible ASCII
/// characters, spaces or tabs.
#[verifier::external_body]
pub(crate) fn header_to_str(v: &http::HeaderValue) -> (s: Option<&str>)
    ensures
        s is Some <==> forall|i: int|
            0 <= i < header_value_seq(*v).len() ==> is_visible_ascii(
                #[trigger] header_value_seq(*v)[i],
            ),
        s matches Some(t) ==> t.spec_bytes() == header_value_seq(*v),
{
    v.to_str().ok()
}

/// `HeaderValue::from_str`: a field with the bytes of a text, unless one of them may not
/// stand in a field.
#[verifier::external_body]
pub(crate) fn header_from_str(s: &str) -> (v: Option<http::HeaderValue>)
    ensures
        v is Some <==> forall|i: int|
            0 <= i < s.spec_bytes().len() ==> is_field_byte(#[trigger] s.spec_bytes()[i]),
        v matches Some(value) ==> header_value_seq(value) == s.spec_bytes(),
{
    http::HeaderValue::from_str(s).ok()
}

/// `Request::headers_mut` and `HeaderMap::try_insert`: sets a field, in place of all the
/// values that it had, and tells whether it did. It panics on a name that no field can
/// have. It fails, and leaves the fields as they are, when the map is full. When a map of
/// more than `MAX_FIELD_NAMES` names is full depends on how its hashes collide, and is
/// left open here.
#[verifier::external_body]
pub(crate) fn insert_field(
    req: &mut http::Request<()>,
    name: &'static str,
    value: http::HeaderValue,
) -> (done: bool)
    requires
        is_plain_name(name@),
    ensures
        request_fields(*old(req)).dom().len() <= MAX_FIELD_NAMES ==> done,
        request_fields(*final(req)) == (if done {
            request_fields(*old(req)).insert(name@, seq![header_value_seq(value)])
        } else {
            request_fields(*old(req))
        }),
        request_method(*final(req)) == request_method(*old(req)),
        request_path(*final(req)) == request_path(*old(req)),
        request_protocol(*final(req)) == request_protocol(*old(req)),
{
    req.headers_mut().try_insert(name, value).is_ok()
}

} // verus!
