//! The answers to a request: the `http` crate's `Response`, described by its status and
//! its header fields.

use vstd::prelude::*;
use vstd::string::*;

use crate::session::request;

verus! {

/// `http::Response`, a response with a body of type `T`.
#[verifier::external_type_specification]
#[verifier::external_body]
#[verifier::reject_recursive_types(T)]
pub struct ExResponse<T>(http::Response<T>);

/// The status of a response.
pub uninterp spec fn response_status(r: http::Response<()>) -> u16;

/// The header fields of a response: all the values under each lower-case name, in their
/// order.
pub uninterp spec fn response_fields(r: http::Response<()>) -> Map<Seq<char>, Seq<Seq<u8>>>;

/// No header fields.
pub open spec fn no_fields() -> Map<Seq<char>, Seq<Seq<u8>>> {
    Map::empty()
}

/// `Response::builder`, `Builder::status` and `Builder::body`: a response without header
/// fields, unless the status is none of three digits.
#[verifier::external_body]
fn plain_response(status: u16) -> (r: Option<http::Response<()>>)
    ensures
        r is Some <==> 100 <= status <= 999,
        r matches Some(resp) ==> response_status(resp) == status && response_fields(resp)
            == no_fields(),
{
    http::Response::builder().status(status).body(()).ok()
}

/// `Response::builder`, `Builder::status`, `Builder::header` and `Builder::body`: a response
/// with one header field, unless the status is none of three digits or a byte of the value
/// may not stand in a field.
#[verifier::external_body]
fn response_with_field(status: u16, name: &str, value: &str) -> (r: Option<http::Response<()>>)
    requires
        request::is_plain_name(name@),
    ensures
        r is Some <==> 100 <= status <= 999 && forall|i: int|
            0 <= i < value.spec_bytes().len() ==> request::is_field_byte(
                #[trigger] value.spec_bytes()[i],
            ),
        r matches Some(resp) ==> response_status(resp) == status && response_fields(resp)
            == no_fields().insert(name@, seq![value.spec_bytes()]),
{
    http::Response::builder().status(status).header(name, value).body(()).ok()
}

/// The answer to a request that is turned down: a status and nothing else.
pub fn refusal(status: u16) -> (r: http::Response<()>)
    requires
        100 <= status <= 999,
    ensures
        response_status(r) == status,
        response_fields(r) == no_fields(),
{
    plain_response(status).unwrap()
}

/// The header fields of the answer to an accepted request: the capsule protocol is in use.
pub open spec fn accepted_fields() -> Map<Seq<char>, Seq<Seq<u8>>> {
    no_fields().insert("capsule-protocol"@, seq![seq![63u8, 49u8]])
}

/// The answer to a request that is accepted: status 200 and the header field
/// `capsule-protocol: ?1`.
pub fn acceptance() -> (r: http::Response<()>)
    ensures
        response_status(r) == 200,
        response_fields(r) == accepted_fields(),
{
    proof {
        reveal_strlit("capsule-protocol");
        reveal_strlit("?1");
        vstd::utf8::is_ascii_chars_encode_utf8("?1"@);
        assert(vstd::utf8::encode_utf8("?1"@) =~= seq![63u8, 49u8]);
    }
    response_with_field(200, "capsule-protocol", "?1").unwrap()
}

/// The answer to an accepted request has one header field with one value: `capsule-protocol`
/// with the two bytes of `?1`. A refusal has none.
pub proof fn law_answer_fields(name: Seq<char>)
    ensures
        accepted_fields().contains_key(name) <==> name == "capsule-protocol"@,
        accepted_fields()["capsule-protocol"@] == seq![seq![63u8, 49u8]],
        !no_fields().contains_key(name),
{
}

} // verus!
