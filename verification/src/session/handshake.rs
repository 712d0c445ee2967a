//! The CONNECT-UDP handshake: from a request to the host and port that the tunnel leads
//! to.

use vstd::prelude::*;
use vstd::string::*;
use vstd::utf8::*;

use crate::session::error::{SessionError, SessionErrorView};
use crate::session::percent;
use crate::session::request;
use crate::text;

verus! {

/// Whether a character is a decimal digit.
pub open spec fn is_digit(c: char) -> bool {
    '0' <= c <= '9'
}

/// The value of a sequence of decimal digits.
pub open spec fn digits_value(s: Seq<char>) -> nat
    decreases s.len(),
{
    if s.len() == 0 {
        0
    } else {
        digits_value(s.drop_last()) * 10 + (s.last() as nat - 48) as nat
    }
}

/// A text without the plus sign that it may start with.
pub open spec fn without_plus(s: Seq<char>) -> Seq<char> {
    if s.len() > 0 && s[0] == '+' {
        s.skip(1)
    } else {
        s
    }
}

/// The number that a text is: at least one decimal digit, after a plus sign or not.
pub open spec fn unsigned_value(s: Seq<char>) -> Option<nat> {
    let digits = without_plus(s);
    if digits.len() > 0 && (forall|i: int| 0 <= i < digits.len() ==> is_digit(#[trigger] digits[i]))
    {
        Some(digits_value(digits))
    } else {
        None
    }
}

/// The port number that a text is.
pub open spec fn port_value(s: Seq<char>) -> Option<u16> {
    match unsigned_value(s) {
        Some(n) => if n <= 65535 {
            Some(n as u16)
        } else {
            None
        },
        None => None,
    }
}

/// The port number that a text is.
fn parse_port(s: &Vec<char>) -> (r: Option<u16>)
    ensures
        r == port_value(s@),
{
    let start: usize = if s.len() > 0 && s[0] == '+' {
        1
    } else {
        0
    };
    let ghost digits = without_plus(s@);
    assert(digits =~= s@.skip(start as int));
    if s.len() == start {
        return None;
    }
    let mut value: u32 = 0;
    let mut i: usize = start;
    while i < s.len()
        invariant
            start <= i <= s@.len(),
            digits == s@.skip(start as int),
            digits == without_plus(s@),
            forall|j: int| 0 <= j < i - start ==> is_digit(#[trigger] digits[j]),
            value <= 65536,
            digits_value(digits.take(i - start)) <= 65535 ==> value == digits_value(
                digits.take(i - start),
            ),
            digits_value(digits.take(i - start)) > 65535 ==> value == 65536,
        decreases s@.len() - i,
    {
        let c: char = s[i];
        assert(digits[i - start] == c);
        assert(digits.take(i + 1 - start).drop_last() =~= digits.take(i - start));
        assert(digits.take(i + 1 - start).last() == c);
        if !('0' <= c && c <= '9') {
            return None;
        }
        let next: u32 = value * 10 + (c as u32 - 48);
        value = if next > 65535 {
            65536
        } else {
            next
        };
        i = i + 1;
    }
    assert(digits.take(s@.len() - start) =~= digits);
    if value > 65535 {
        None
    } else {
        Some(value as u16)
    }
}

/// The position of the last slash.
pub open spec fn last_slash(s: Seq<char>) -> Option<nat>
    decreases s.len(),
{
    if s.len() == 0 {
        None
    } else if s.last() == '/' {
        Some((s.len() - 1) as nat)
    } else {
        last_slash(s.drop_last())
    }
}

/// The fixed part of the path of a CONNECT-UDP request.
pub open spec fn masque_prefix() -> Seq<char> {
    "/.well-known/masque/udp/"@
}

/// The host and port in `{host}/{port}`, or the words for what is wrong with it.
pub open spec fn target_of_segments(host: Seq<char>, port: Seq<char>) -> Result<
    (Seq<char>, u16),
    Seq<char>,
> {
    if host.len() == 0 {
        Err("target_host must not be empty"@)
    } else {
        match percent::percent_decoded(host) {
            Err(words) => Err(words),
            Ok(decoded) => match port_value(port) {
                None => Err("invalid port '"@ + port + "'"@),
                Some(number) => if number == 0 {
                    Err("port 0 is not valid"@)
                } else {
                    Ok((decoded, number))
                },
            },
        }
    }
}

/// The host and port that a path names, or the words for what is wrong with it.
pub open spec fn target_of_path(path: Seq<char>) -> Result<(Seq<char>, u16), Seq<char>> {
    let prefix = masque_prefix();
    if path.len() < prefix.len() || path.take(prefix.len() as int) != prefix {
        Err("path '"@ + path + "' does not start with '"@ + prefix + "'"@)
    } else {
        let after = path.skip(prefix.len() as int);
        if after.len() == 0 || after.last() != '/' {
            Err("path '"@ + path + "' must end with '/'"@)
        } else {
            let segments = after.drop_last();
            match last_slash(segments) {
                None => Err("path '"@ + path + "' missing '{host}/{port}' structure"@),
                Some(k) => target_of_segments(
                    segments.take(k as int),
                    segments.skip(k as int + 1),
                ),
            }
        }
    }
}

/// Whether `r` is the given target, or the path error with the given words.
pub open spec fn is_path_result(
    r: Result<(String, u16), SessionError>,
    expected: Result<(Seq<char>, u16), Seq<char>>,
) -> bool {
    match expected {
        Ok(target) => r is Ok && (r->Ok_0.0@, r->Ok_0.1) == target,
        Err(words) => r is Err && r->Err_0@ == SessionErrorView::ParseError(words),
    }
}

/// The position of the last slash.
fn find_last_slash(s: &Vec<char>, start: usize, end: usize) -> (r: Option<usize>)
    requires
        start <= end <= s@.len(),
    ensures
        match last_slash(s@.subrange(start as int, end as int)) {
            Some(k) => r == Some((start + k) as usize) && start + k < end,
            None => r is None,
        },
{
    let mut i: usize = end;
    while i > start
        invariant
            start <= i <= end <= s@.len(),
            last_slash(s@.subrange(start as int, end as int)) == last_slash(
                s@.subrange(start as int, i as int),
            ),
        decreases i,
    {
        let ghost part = s@.subrange(start as int, i as int);
        assert(part.drop_last() =~= s@.subrange(start as int, i - 1));
        if s[i - 1] == '/' {
            return Some(i - 1);
        }
        i = i - 1;
    }
    None
}

/// Whether `s` starts with `prefix`.
fn starts_with(s: &Vec<char>, prefix: &Vec<char>) -> (r: bool)
    ensures
        r == (s@.len() >= prefix@.len() && s@.take(prefix@.len() as int) == prefix@),
{
    if s.len() < prefix.len() {
        return false;
    }
    let mut i: usize = 0;
    while i < prefix.len()
        invariant
            i <= prefix@.len() <= s@.len(),
            forall|j: int| 0 <= j < i ==> s@[j] == prefix@[j],
        decreases prefix@.len() - i,
    {
        if s[i] != prefix[i] {
            assert(s@.take(prefix@.len() as int)[i as int] != prefix@[i as int]);
            return false;
        }
        i = i + 1;
    }
    assert(s@.take(prefix@.len() as int) =~= prefix@);
    true
}

/// Reads the target of a CONNECT-UDP request out of its path,
/// `/.well-known/masque/udp/{target_host}/{target_port}/`.
///
/// The host may be percent-encoded. The last segment is the port, so a host may hold
/// colons and slashes.
pub fn parse_masque_udp_path(path: &str) -> (r: Result<(String, u16), SessionError>)
    ensures
        is_path_result(r, target_of_path(path@)),
{
    let chars: Vec<char> = text::to_chars(path);
    let prefix: Vec<char> = text::to_chars("/.well-known/masque/udp/");
    let n: usize = chars.len();
    let p: usize = prefix.len();
    if !starts_with(&chars, &prefix) {
        let mut words: String = text::concat3("path '", path, "' does not start with '");
        words.append("/.well-known/masque/udp/");
        words.append("'");
        return Err(SessionError::ParseError(words));
    }
    let ghost after = path@.skip(p as int);
    if n == p || chars[n - 1] != '/' {
        return Err(SessionError::ParseError(text::concat3("path '", path, "' must end with '/'")));
    }
    let ghost segments = after.drop_last();
    assert(segments =~= chars@.subrange(p as int, n - 1));
    let slash: usize = match find_last_slash(&chars, p, n - 1) {
        Some(slash) => slash,
        None => {
            return Err(
                SessionError::ParseError(
                    text::concat3("path '", path, "' missing '{host}/{port}' structure"),
                ),
            );
        },
    };
    let host_raw: &str = path.substring_char(p, slash);
    let port_raw: &str = path.substring_char(slash + 1, n - 1);
    proof {
        let k = slash - p;
        assert(host_raw@ =~= segments.take(k));
        assert(port_raw@ =~= segments.skip(k + 1));
    }
    if slash == p {
        return Err(SessionError::ParseError("target_host must not be empty".to_owned()));
    }
    let host: String = match percent::percent_decode(host_raw) {
        Ok(host) => host,
        Err(words) => {
            return Err(SessionError::ParseError(words));
        },
    };
    let port: u16 = match parse_port(&text::to_chars(port_raw)) {
        Some(port) => port,
        None => {
            return Err(
                SessionError::ParseError(text::concat3("invalid port '", port_raw, "'")),
            );
        },
    };
    if port == 0 {
        return Err(SessionError::ParseError("port 0 is not valid".to_owned()));
    }
    Ok((host, port))
}

/// The target of a request with the given method, `:protocol` and path, or why it is
/// refused.
pub open spec fn handshake(method: Seq<char>, protocol: Seq<char>, path: Seq<char>) -> Result<
    (Seq<char>, u16),
    SessionErrorView,
> {
    if method != "CONNECT"@ {
        Err(SessionErrorView::InvalidHandshake { reason: ":method must be CONNECT"@ })
    } else if protocol != "connect-udp"@ {
        Err(SessionErrorView::InvalidHandshake { reason: ":protocol must be 'connect-udp'"@ })
    } else {
        match target_of_path(path) {
            Ok(target) => Ok(target),
            Err(words) => Err(SessionErrorView::ParseError(words)),
        }
    }
}

/// Whether `r` is the given outcome of a handshake.
pub open spec fn is_handshake_result(
    r: Result<(String, u16), SessionError>,
    expected: Result<(Seq<char>, u16), SessionErrorView>,
) -> bool {
    match expected {
        Ok(target) => r is Ok && (r->Ok_0.0@, r->Ok_0.1) == target,
        Err(e) => r is Err && r->Err_0@ == e,
    }
}

/// Decides on a request with the given method, `:protocol` and path.
pub fn check_connect_udp(method: &str, protocol: &str, path: &str) -> (r: Result<
    (String, u16),
    SessionError,
>)
    ensures
        is_handshake_result(r, handshake(method@, protocol@, path@)),
{
    if !text::same_text(method, "CONNECT") {
        return Err(SessionError::InvalidHandshake { reason: ":method must be CONNECT" });
    }
    if !text::same_text(protocol, "connect-udp") {
        return Err(SessionError::InvalidHandshake { reason: ":protocol must be 'connect-udp'" });
    }
    parse_masque_udp_path(path)
}

/// The text of a header field. A field that is not visible ASCII counts as empty.
pub open spec fn field_text(bytes: Seq<u8>) -> Seq<char> {
    if forall|i: int| 0 <= i < bytes.len() ==> request::is_visible_ascii(#[trigger] bytes[i]) {
        decode_utf8(bytes)
    } else {
        ""@
    }
}

/// The `:protocol` of a request with the given header fields: the first value of the field
/// `x-protocol`, else that of the field `:protocol`, else nothing.
pub open spec fn protocol_of_fields(fields: Map<Seq<char>, Seq<Seq<u8>>>) -> Seq<char> {
    if fields.contains_key("x-protocol"@) {
        field_text(fields["x-protocol"@][0])
    } else if fields.contains_key(":protocol"@) {
        field_text(fields[":protocol"@][0])
    } else {
        ""@
    }
}

/// The text of a header field, empty when it is not visible ASCII.
fn field_str<'a>(value: &'a http::HeaderValue) -> (s: &'a str)
    ensures
        s@ == field_text(request::header_value_seq(*value)),
{
    match request::header_to_str(value) {
        Some(s) => {
            proof {
                encode_utf8_decode_utf8(s@);
            }
            s
        },
        None => "",
    }
}

/// Reads the target out of an extended CONNECT request for `connect-udp`:
///
/// ```text
/// CONNECT /.well-known/masque/udp/{target_host}/{target_port}/ HTTP/3
/// :protocol = connect-udp
/// capsule-protocol = ?1
/// ```
pub fn parse_connect_udp_target(req: &http::Request<()>) -> (r: Result<
    (String, u16),
    SessionError,
>)
    ensures
        is_handshake_result(
            r,
            handshake(
                request::request_method(*req),
                protocol_of_fields(request::request_fields(*req)),
                request::request_path(*req),
            ),
        ),
{
    proof {
        reveal_strlit("x-protocol");
        reveal_strlit(":protocol");
    }
    let protocol: &str = match request::field_of(req, "x-protocol") {
        Some(value) => field_str(value),
        None => match request::field_of(req, ":protocol") {
            Some(value) => field_str(value),
            None => "",
        },
    };
    check_connect_udp(request::method_of(req), protocol, request::path_of(req))
}

/// The header fields of a request once the `:protocol` that the HTTP/3 layer keeps beside
/// it stands among them, as the only value of its field.
pub open spec fn injected_fields(
    fields: Map<Seq<char>, Seq<Seq<u8>>>,
    protocol: Option<Seq<char>>,
) -> Map<Seq<char>, Seq<Seq<u8>>> {
    match protocol {
        Some(p) => fields.insert("x-protocol"@, seq![encode_utf8(p)]),
        None => fields,
    }
}

/// Copies the `:protocol` that the HTTP/3 layer keeps beside a request into its header
/// field `x-protocol`. Nothing comes back when the request has too many fields for that,
/// which takes more than `MAX_FIELD_NAMES` names.
pub fn inject_protocol_header(req: http::Request<()>) -> (r: Option<http::Request<()>>)
    ensures
        r matches Some(out) ==> {
            &&& request::request_fields(out) == injected_fields(
                request::request_fields(req),
                request::request_protocol(req),
            )
            &&& request::request_method(out) == request::request_method(req)
            &&& request::request_path(out) == request::request_path(req)
            &&& request::request_protocol(out) == request::request_protocol(req)
        },
        request::request_protocol(req) is None ==> r == Some(req),
        request::request_fields(req).dom().len() <= request::MAX_FIELD_NAMES ==> r is Some,
{
    let mut req: http::Request<()> = req;
    let value: Option<http::HeaderValue> = match request::protocol_of(&req) {
        Some(protocol) => {
            proof {
                lemma_protocol_bytes(protocol@);
            }
            request::header_from_str(protocol)
        },
        None => None,
    };
    proof {
        reveal_strlit("x-protocol");
    }
    match value {
        Some(value) => if request::insert_field(&mut req, "x-protocol", value) {
            Some(req)
        } else {
            None
        },
        None => Some(req),
    }
}

/// The protocols that the HTTP/3 layer knows can stand in a header field.
proof fn lemma_protocol_bytes(p: Seq<char>)
    requires
        p == "webtransport"@ || p == "connect-udp"@,
    ensures
        forall|i: int|
            0 <= i < encode_utf8(p).len() ==> request::is_visible_ascii(
                #[trigger] encode_utf8(p)[i],
            ),
{
    reveal_strlit("webtransport");
    reveal_strlit("connect-udp");
    is_ascii_chars_encode_utf8(p);
}

/// A decimal text is read back as the number that it was written from.
pub proof fn law_decimal_round_trip(n: nat)
    ensures
        unsigned_value(text::decimal_text(n)) == Some(n),
{
    lemma_decimal_text(n);
}

proof fn lemma_decimal_text(n: nat)
    ensures
        text::decimal_text(n).len() > 0,
        forall|i: int|
            0 <= i < text::decimal_text(n).len() ==> is_digit(#[trigger] text::decimal_text(n)[i]),
        digits_value(text::decimal_text(n)) == n,
    decreases n,
{
    let s = text::decimal_text(n);
    if n < 10 {
        assert(s.drop_last() =~= Seq::empty());
        assert(digits_value(s.drop_last()) == 0);
        assert(s.last() == text::digit_char(n));
    } else {
        lemma_decimal_text(n / 10);
        assert(s.drop_last() =~= text::decimal_text(n / 10));
        assert(s.last() == text::digit_char(n % 10));
    }
}

proof fn lemma_last_slash(host: Seq<char>, port: Seq<char>)
    requires
        forall|i: int| 0 <= i < port.len() ==> #[trigger] port[i] != '/',
    ensures
        last_slash(host + seq!['/'] + port) == Some(host.len()),
    decreases port.len(),
{
    let s = host + seq!['/'] + port;
    if port.len() == 0 {
        assert(s.last() == '/');
    } else {
        lemma_last_slash(host, port.drop_last());
        assert(s.last() == port.last());
        assert(s.drop_last() =~= host + seq!['/'] + port.drop_last());
    }
}

/// The path of a request for a tunnel to a host and port.
pub open spec fn target_path(host: Seq<char>, port: nat) -> Seq<char> {
    masque_prefix() + host + seq!['/'] + text::decimal_text(port) + seq!['/']
}

/// The path for a host and a port that is not zero is accepted when the host can be
/// decoded, and names the decoded host and that port. A host may hold slashes and colons.
pub proof fn law_path_names_target(host: Seq<char>, port: u16)
    requires
        host.len() > 0,
        port > 0,
    ensures
        target_of_path(target_path(host, port as nat)) == (match percent::percent_decoded(host) {
            Ok(decoded) => Ok::<(Seq<char>, u16), Seq<char>>((decoded, port)),
            Err(words) => Err(words),
        }),
{
    let path = target_path(host, port as nat);
    let prefix = masque_prefix();
    let digits = text::decimal_text(port as nat);
    lemma_decimal_text(port as nat);
    assert forall|i: int| 0 <= i < digits.len() implies #[trigger] digits[i] != '/' by {
        assert(is_digit(digits[i]));
    }
    assert(path.take(prefix.len() as int) =~= prefix);
    let after = path.skip(prefix.len() as int);
    assert(after =~= host + seq!['/'] + digits + seq!['/']);
    assert(after.last() == '/');
    let segments = after.drop_last();
    assert(segments =~= host + seq!['/'] + digits);
    lemma_last_slash(host, digits);
    assert(segments.take(host.len() as int) =~= host);
    assert(segments.skip(host.len() as int + 1) =~= digits);
    law_decimal_round_trip(port as nat);
}

/// A tunnel to any host and any port but zero can be asked for: the path with the host
/// percent-encoded names it, with the digits of the escapes in either case.
pub proof fn law_every_target_has_a_path(
    host: Seq<char>,
    port: u16,
    keep: spec_fn(nat) -> bool,
    lower: spec_fn(nat) -> (bool, bool),
)
    requires
        host.len() > 0,
        port > 0,
    ensures
        target_of_path(
            target_path(percent::percent_encoded(encode_utf8(host), keep, lower), port as nat),
        ) == Ok::<(Seq<char>, u16), Seq<char>>((host, port)),
{
    let raw = percent::percent_encoded(encode_utf8(host), keep, lower);
    percent::law_percent_round_trip(host, keep, lower);
    encode_utf8_first_scalar(host);
    assert(raw.len() > 0);
    law_path_names_target(raw, port);
}

/// A host without a percent sign stands for itself in a path.
pub proof fn law_plain_host(host: Seq<char>, port: u16)
    requires
        host.len() > 0,
        port > 0,
        forall|i: int| 0 <= i < host.len() ==> #[trigger] host[i] != '%',
    ensures
        target_of_path(target_path(host, port as nat)) == Ok::<(Seq<char>, u16), Seq<char>>(
            (host, port),
        ),
{
    percent::law_percent_plain(host);
    law_path_names_target(host, port);
}

/// A request is accepted only if it is a CONNECT for `connect-udp` whose path starts with
/// the fixed part and ends with a slash, and an accepted target has a host and a port.
pub proof fn law_accepted_request(method: Seq<char>, protocol: Seq<char>, path: Seq<char>)
    ensures
        handshake(method, protocol, path) matches Ok((host, port)) ==> {
            &&& method == "CONNECT"@
            &&& protocol == "connect-udp"@
            &&& masque_prefix().is_prefix_of(path)
            &&& path.last() == '/'
            &&& host.len() > 0
            &&& port > 0
        },
{
    if let Ok((host, port)) = target_of_path(path) {
        let prefix = masque_prefix();
        let after = path.skip(prefix.len() as int);
        let segments = after.drop_last();
        let k = last_slash(segments)->Some_0;
        percent::law_percent_not_empty(segments.take(k as int));
        assert(masque_prefix().is_prefix_of(path));
    }
}

/// The `:protocol` that the HTTP/3 layer keeps beside a request is the one that the
/// handshake reads once it has been copied into the header fields, whatever the fields
/// held before.
pub proof fn law_injected_protocol(fields: Map<Seq<char>, Seq<Seq<u8>>>, protocol: Seq<char>)
    requires
        protocol == "webtransport"@ || protocol == "connect-udp"@,
    ensures
        protocol_of_fields(injected_fields(fields, Some(protocol))) == protocol,
{
    lemma_protocol_bytes(protocol);
    encode_utf8_decode_utf8(protocol);
}

/// How numbers are written in decimal: only the digits 0 to 9, no leading zero, and the last
/// digit is the remainder by ten.
pub proof fn law_decimal_digits(n: nat, d: nat)
    requires
        d < 10,
    ensures
        forall|i: int|
            0 <= i < text::decimal_text(n).len() ==> '0' <= #[trigger] text::decimal_text(n)[i]
                <= '9',
        text::decimal_text(d) == seq![(48 + d) as char],
        n > 0 ==> text::decimal_text(10 * n + d) == text::decimal_text(n).push((48 + d) as char),
        n > 0 ==> text::decimal_text(n)[0] != '0',
    decreases n,
{
    lemma_decimal_text(n);
    assert forall|i: int| 0 <= i < text::decimal_text(n).len() implies '0'
        <= #[trigger] text::decimal_text(n)[i] <= '9' by {
        assert(is_digit(text::decimal_text(n)[i]));
    }
    assert((10 * n + d) / 10 == n && (10 * n + d) % 10 == d);
    if n >= 10 {
        lemma_decimal_text(n / 10);
        law_decimal_digits(n / 10, n % 10);
        assert(text::decimal_text(n)[0] == text::decimal_text(n / 10)[0]);
    }
}

/// Whether a text is made of the digits 0 to 9, and not empty.
pub open spec fn is_number(s: Seq<char>) -> bool {
    s.len() > 0 && forall|i: int| 0 <= i < s.len() ==> '0' <= #[trigger] s[i] <= '9'
}

/// How numbers are read: each further digit counts ten times what came before and itself, and
/// leading zeros and one plus sign in front make no difference.
pub proof fn law_number_digits(s: Seq<char>, c: char)
    requires
        is_number(s),
        '0' <= c <= '9',
    ensures
        unsigned_value(seq![c]) == Some((c as nat - 48) as nat),
        unsigned_value(s) is Some,
        unsigned_value(s.push(c)) == Some((10 * unsigned_value(s)->0 + (c as nat - 48)) as nat),
        unsigned_value(seq!['+'] + s) == unsigned_value(s),
        unsigned_value(seq!['0'] + s) == unsigned_value(s),
    decreases s.len(),
{
    assert forall|i: int| 0 <= i < s.len() implies is_digit(#[trigger] s[i]) by {
        assert('0' <= s[i] <= '9');
    }
    assert(without_plus(s) =~= s) by {
        assert(s[0] != '+');
    }
    let one = seq![c];
    assert(one.drop_last() =~= Seq::empty());
    assert(digits_value(one.drop_last()) == 0);
    assert(without_plus(one) =~= one);
    let more = s.push(c);
    assert(without_plus(more) =~= more) by {
        assert(more[0] == s[0]);
    }
    assert(more.drop_last() =~= s);
    let signed = seq!['+'] + s;
    assert(signed.skip(1) =~= s);
    let padded = seq!['0'] + s;
    assert(without_plus(padded) =~= padded);
    assert(digits_value(padded) == digits_value(s)) by {
        lemma_leading_zero(s);
    }
    assert forall|i: int| 0 <= i < padded.len() implies is_digit(#[trigger] padded[i]) by {
        if i > 0 {
            assert(padded[i] == s[i - 1]);
        }
    }
}

proof fn lemma_leading_zero(s: Seq<char>)
    ensures
        digits_value(seq!['0'] + s) == digits_value(s),
    decreases s.len(),
{
    let padded = seq!['0'] + s;
    if s.len() == 0 {
        assert(padded.drop_last() =~= Seq::empty());
        assert(digits_value(padded.drop_last()) == 0);
        assert(padded.last() == '0');
    } else {
        lemma_leading_zero(s.drop_last());
        assert(padded.drop_last() =~= seq!['0'] + s.drop_last());
        assert(padded.last() == s.last());
    }
}

/// What is read as a port: a number of up to 65535, with or without one plus sign in front,
/// and nothing else.
pub proof fn law_port_is_a_number(s: Seq<char>)
    ensures
        port_value(s) is Some <==> (is_number(s) || (s.len() > 0 && s[0] == '+' && is_number(
            s.skip(1),
        ))) && unsigned_value(s)->0 <= 65535,
        port_value(s) matches Some(p) ==> unsigned_value(s) == Some(p as nat),
{
    let digits = without_plus(s);
    if unsigned_value(s) is Some {
        assert forall|i: int| 0 <= i < digits.len() implies '0' <= #[trigger] digits[i] <= '9' by {
            assert(is_digit(digits[i]));
        }
        assert(is_number(digits));
    }
    if is_number(s) {
        assert('0' <= s[0] <= '9');
        assert forall|i: int| 0 <= i < s.len() implies is_digit(#[trigger] s[i]) by {
            assert('0' <= s[i] <= '9');
        }
    }
    if s.len() > 0 && s[0] == '+' && is_number(s.skip(1)) {
        assert forall|i: int| 0 <= i < digits.len() implies is_digit(#[trigger] digits[i]) by {
            assert('0' <= s.skip(1)[i] <= '9');
        }
    }
}

/// A path that does not start with `/.well-known/masque/udp/` is refused with these words.
pub proof fn law_path_without_prefix(path: Seq<char>)
    requires
        !"/.well-known/masque/udp/"@.is_prefix_of(path),
    ensures
        target_of_path(path) == Err::<(Seq<char>, u16), Seq<char>>(
            "path '"@ + path + "' does not start with '"@ + "/.well-known/masque/udp/"@ + "'"@,
        ),
{
    let prefix = "/.well-known/masque/udp/"@;
    if path.len() >= prefix.len() {
        assert(path.take(prefix.len() as int) == path.subrange(0, prefix.len() as int));
    }
}

/// A path that goes on with something that does not end with a slash is refused with these
/// words.
pub proof fn law_path_without_last_slash(rest: Seq<char>)
    requires
        rest.len() == 0 || rest.last() != '/',
    ensures
        ({
            let path = "/.well-known/masque/udp/"@ + rest;
            target_of_path(path) == Err::<(Seq<char>, u16), Seq<char>>(
                "path '"@ + path + "' must end with '/'"@,
            )
        }),
{
    let prefix = "/.well-known/masque/udp/"@;
    assert((prefix + rest).take(prefix.len() as int) =~= prefix);
    assert((prefix + rest).skip(prefix.len() as int) =~= rest);
}

/// A path that goes on with one segment only is refused with these words.
pub proof fn law_path_of_one_segment(segment: Seq<char>)
    requires
        forall|i: int| 0 <= i < segment.len() ==> #[trigger] segment[i] != '/',
    ensures
        ({
            let path = "/.well-known/masque/udp/"@ + segment + seq!['/'];
            target_of_path(path) == Err::<(Seq<char>, u16), Seq<char>>(
                "path '"@ + path + "' missing '{host}/{port}' structure"@,
            )
        }),
{
    let prefix = "/.well-known/masque/udp/"@;
    let path = prefix + segment + seq!['/'];
    assert(path.take(prefix.len() as int) =~= prefix);
    let after = path.skip(prefix.len() as int);
    assert(after =~= segment + seq!['/']);
    assert(after.drop_last() =~= segment);
    lemma_no_slash(segment);
}

proof fn lemma_no_slash(s: Seq<char>)
    requires
        forall|i: int| 0 <= i < s.len() ==> #[trigger] s[i] != '/',
    ensures
        last_slash(s) is None,
    decreases s.len(),
{
    if s.len() > 0 {
        lemma_no_slash(s.drop_last());
    }
}

/// A path that goes on with a host, a slash, a segment without a slash, and a slash: the last
/// segment is the port and all before it is the host, slashes included. It names the decoded
/// host and that port. It is refused when the host is empty, when it cannot be decoded, when
/// the segment is no port, and when the port is zero, and the first of these that holds gives
/// the words.
pub proof fn law_path_of_host_and_port(host: Seq<char>, port: Seq<char>)
    requires
        forall|i: int| 0 <= i < port.len() ==> #[trigger] port[i] != '/',
    ensures
        ({
            let r = target_of_path(
                "/.well-known/masque/udp/"@ + host + seq!['/'] + port + seq!['/'],
            );
            let decoded = percent::percent_decoded(host);
            &&& host.len() == 0 ==> r == Err::<(Seq<char>, u16), Seq<char>>(
                "target_host must not be empty"@,
            )
            &&& host.len() > 0 && decoded is Err ==> r == Err::<(Seq<char>, u16), Seq<char>>(
                decoded->Err_0,
            )
            &&& host.len() > 0 && decoded is Ok && port_value(port) is None ==> r == Err::<
                (Seq<char>, u16),
                Seq<char>,
            >("invalid port '"@ + port + "'"@)
            &&& host.len() > 0 && decoded is Ok && port_value(port) == Some(0u16) ==> r == Err::<
                (Seq<char>, u16),
                Seq<char>,
            >("port 0 is not valid"@)
            &&& host.len() > 0 && decoded is Ok && port_value(port) is Some && port_value(port)->0
                > 0 ==> r == Ok::<(Seq<char>, u16), Seq<char>>(
                (decoded->Ok_0, port_value(port)->0),
            )
        }),
{
    let prefix = "/.well-known/masque/udp/"@;
    let path = prefix + host + seq!['/'] + port + seq!['/'];
    assert(path.take(prefix.len() as int) =~= prefix);
    let after = path.skip(prefix.len() as int);
    assert(after =~= host + seq!['/'] + port + seq!['/']);
    assert(after.last() == '/');
    let segments = after.drop_last();
    assert(segments =~= host + seq!['/'] + port);
    lemma_last_slash(host, port);
    assert(segments.take(host.len() as int) =~= host);
    assert(segments.skip(host.len() as int + 1) =~= port);
}

/// A request of another method is refused for its method, whatever else it holds; a CONNECT
/// for another protocol is refused for its protocol, whatever its path.
pub proof fn law_handshake_refuses(method: Seq<char>, protocol: Seq<char>, path: Seq<char>)
    ensures
        method != "CONNECT"@ ==> handshake(method, protocol, path) == Err::<
            (Seq<char>, u16),
            SessionErrorView,
        >((SessionErrorView::InvalidHandshake { reason: ":method must be CONNECT"@ })),
        method == "CONNECT"@ && protocol != "connect-udp"@ ==> handshake(method, protocol, path)
            == Err::<(Seq<char>, u16), SessionErrorView>(
            (SessionErrorView::InvalidHandshake { reason: ":protocol must be 'connect-udp'"@ }),
        ),
{
}

/// A CONNECT for `connect-udp` is accepted just when its path names a target, and gets that
/// very target, whatever the host and the port; and a path that is refused has the request
/// refused with the same words.
pub proof fn law_handshake_gives_the_target_of_the_path(path: Seq<char>)
    ensures
        handshake("CONNECT"@, "connect-udp"@, path) is Ok <==> target_of_path(path) is Ok,
        target_of_path(path) matches Ok(target) ==> handshake("CONNECT"@, "connect-udp"@, path)
            == Ok::<(Seq<char>, u16), SessionErrorView>(target),
        target_of_path(path) matches Err(words) ==> handshake("CONNECT"@, "connect-udp"@, path)
            == Err::<(Seq<char>, u16), SessionErrorView>(SessionErrorView::ParseError(words)),
{
}

/// A request for a tunnel to a host and a port gets a tunnel to just that host and port: for
/// every host that is not empty and has no percent sign, and every port from 1 to 65535.
pub proof fn law_request_gets_its_target(host: Seq<char>, port: u16)
    requires
        host.len() > 0,
        port > 0,
        forall|i: int| 0 <= i < host.len() ==> #[trigger] host[i] != '%',
    ensures
        handshake(
            "CONNECT"@,
            "connect-udp"@,
            "/.well-known/masque/udp/"@ + host + seq!['/'] + text::decimal_text(port as nat)
                + seq!['/'],
        ) == Ok::<(Seq<char>, u16), SessionErrorView>((host, port)),
{
    law_plain_host(host, port);
}

/// The same for every host that is not empty, when it is percent-encoded in the request.
pub proof fn law_encoded_request_gets_its_target(
    host: Seq<char>,
    port: u16,
    keep: spec_fn(nat) -> bool,
    lower: spec_fn(nat) -> (bool, bool),
)
    requires
        host.len() > 0,
        port > 0,
    ensures
        handshake(
            "CONNECT"@,
            "connect-udp"@,
            "/.well-known/masque/udp/"@ + percent::percent_encoded(encode_utf8(host), keep, lower)
                + seq!['/'] + text::decimal_text(port as nat) + seq!['/'],
        ) == Ok::<(Seq<char>, u16), SessionErrorView>((host, port)),
{
    law_every_target_has_a_path(host, port, keep, lower);
}

/// What a result is held against is the whole of it: the host and the port, or the error.
pub proof fn law_results_are_whole(
    r: Result<(String, u16), SessionError>,
    host: Seq<char>,
    port: u16,
    words: Seq<char>,
    e: SessionErrorView,
)
    ensures
        is_path_result(r, Ok((host, port))) <==> (r matches Ok(t) && t.0@ == host && t.1 == port),
        is_path_result(r, Err(words)) <==> (r matches Err(f) && f@ == SessionErrorView::ParseError(
            words,
        )),
        is_handshake_result(r, Ok((host, port))) <==> (r matches Ok(t) && t.0@ == host && t.1
            == port),
        is_handshake_result(r, Err(e)) <==> (r matches Err(f) && f@ == e),
{
}

/// A header field is read as text byte by byte when all its bytes are from 32 to 126, or tabs;
/// any other field counts as empty.
pub proof fn law_field_text(bytes: Seq<u8>)
    ensures
        (forall|i: int| 0 <= i < bytes.len() ==> 32 <= #[trigger] bytes[i] <= 126 || bytes[i] == 9)
            ==> field_text(bytes).len() == bytes.len() && forall|i: int|
            0 <= i < bytes.len() ==> #[trigger] field_text(bytes)[i] == bytes[i] as char,
        (exists|i: int|
            0 <= i < bytes.len() && !(32 <= #[trigger] bytes[i] <= 126) && bytes[i] != 9)
            ==> field_text(bytes).len() == 0,
{
    reveal_strlit("");
    if forall|i: int| 0 <= i < bytes.len() ==> 32 <= #[trigger] bytes[i] <= 126 || bytes[i] == 9 {
        let chars = Seq::new(bytes.len(), |i: int| bytes[i] as char);
        assert(is_ascii_chars(chars));
        is_ascii_chars_encode_utf8(chars);
        assert forall|i: int| 0 <= i < bytes.len() implies encode_utf8(chars)[i]
            == #[trigger] bytes[i] by {
            assert(chars[i] as u8 == encode_utf8(chars)[i]);
        }
        assert(encode_utf8(chars) =~= bytes);
        encode_utf8_decode_utf8(chars);
        assert(forall|i: int|
            0 <= i < bytes.len() ==> request::is_visible_ascii(#[trigger] bytes[i]));
    }
}

/// Which field tells the protocol: the first value of `x-protocol` if that field is there,
/// whatever `:protocol` says; else the first value of `:protocol`; else the protocol is empty.
pub proof fn law_protocol_field(fields: Map<Seq<char>, Seq<Seq<u8>>>)
    ensures
        fields.contains_key("x-protocol"@) ==> protocol_of_fields(fields) == field_text(
            fields["x-protocol"@][0],
        ),
        !fields.contains_key("x-protocol"@) && fields.contains_key(":protocol"@)
            ==> protocol_of_fields(fields) == field_text(fields[":protocol"@][0]),
        !fields.contains_key("x-protocol"@) && !fields.contains_key(":protocol"@)
            ==> protocol_of_fields(fields).len() == 0,
{
    reveal_strlit("");
}

/// Copying the protocol into the header fields sets the one field `x-protocol` to that one
/// value and leaves every other field with all its values; without a protocol nothing changes.
pub proof fn law_injection_leaves_the_rest(
    fields: Map<Seq<char>, Seq<Seq<u8>>>,
    protocol: Seq<char>,
    name: Seq<char>,
)
    ensures
        injected_fields(fields, None) == fields,
        injected_fields(fields, Some(protocol)).contains_key("x-protocol"@),
        injected_fields(fields, Some(protocol))["x-protocol"@].len() == 1,
        injected_fields(fields, Some(protocol))["x-protocol"@][0] == encode_utf8(protocol),
        name != "x-protocol"@ ==> (injected_fields(fields, Some(protocol)).contains_key(name)
            <==> fields.contains_key(name)),
        name != "x-protocol"@ && fields.contains_key(name) ==> injected_fields(
            fields,
            Some(protocol),
        )[name] == fields[name],
{
}

} // verus!
