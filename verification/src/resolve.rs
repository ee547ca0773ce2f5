//! From a target string to a concrete address.
//!
//! A target is either a URL with a scheme, such as `https://example.com`, or
//! a bare `host:port` pair, such as `db:5432` or `127.0.0.1:4000`. Resolving
//! it takes two steps. The first, [`parse_target`], finds the host and the
//! port that the target names. The caller then looks the host up. The second
//! step, [`resolve_address`], takes the addresses that the lookup gave and
//! settles on the first of them.
//!
//! The URL parser says whether a target is a URL and what its host is. Two
//! things are read off the text of the target itself. One is a port that the
//! target writes out: the parser leaves out a port that is the usual one of
//! the scheme, and a port that is written is to be used whatever the scheme.
//! The other is a bare pair such as `db:5432`, which the parser takes for a
//! URL of scheme `db` without a host.

use crate::address::{IpAddress, SocketAddress};
use crate::errors::WaitServiceError;
use crate::url_parts::{parse_url, parsed_view, url_parse, UrlParts, UrlPartsView};
use vstd::prelude::*;

verus! {

/// The port of an `https` URL that gives none.
pub const DEFAULT_HTTPS_PORT: u16 = 443;

/// The port of an `http` URL that gives none.
pub const DEFAULT_HTTP_PORT: u16 = 80;

/// The host and the port that a target names: what is to be looked up.
#[derive(Debug, Clone, PartialEq, Eq)]
pub struct Endpoint {
    pub host: String,
    pub port: u16,
}

/// [`Endpoint`] as plain values.
pub struct EndpointView {
    pub host: Seq<char>,
    pub port: u16,
}

impl View for Endpoint {
    type V = EndpointView;

    open spec fn view(&self) -> EndpointView {
        EndpointView { host: self.host@, port: self.port }
    }
}

/// The result of parsing a target, as plain values.
pub open spec fn endpoint_result_view(result: Result<Endpoint, WaitServiceError>) -> Result<
    EndpointView,
    WaitServiceError,
> {
    match result {
        Ok(endpoint) => Ok(endpoint@),
        Err(error) => Err(error),
    }
}

/// Whether `c` is one of the digits `0` to `9`.
pub open spec fn is_digit(c: char) -> bool {
    '0' <= c && c <= '9'
}

/// Whether `text` is made of digits only.
pub open spec fn all_digits(text: Seq<char>) -> bool {
    forall|i: int| 0 <= i < text.len() ==> is_digit(#[trigger] text[i])
}

/// The number that the digit `c` stands for; zero for any other character.
pub open spec fn digit_value(c: char) -> nat {
    if is_digit(c) {
        (c as nat - '0' as nat) as nat
    } else {
        0
    }
}

/// The number that the digits of `text` spell in base ten.
pub open spec fn decimal_value(text: Seq<char>) -> nat
    decreases text.len(),
{
    if text.len() == 0 {
        0
    } else {
        decimal_value(text.drop_last()) * 10 + digit_value(text.last())
    }
}

/// The port that `text` spells: one or more digits whose value fits a port
/// number. Leading zeros are accepted; a sign or a blank is not.
pub open spec fn spec_port(text: Seq<char>) -> Option<u16> {
    if text.len() > 0 && all_digits(text) && decimal_value(text) <= u16::MAX {
        Some(decimal_value(text) as u16)
    } else {
        None
    }
}

/// The place of the last `c` in `text`.
pub open spec fn last_index_of(text: Seq<char>, c: char) -> Option<int>
    decreases text.len(),
{
    if text.len() == 0 {
        None
    } else if text.last() == c {
        Some(text.len() - 1)
    } else {
        last_index_of(text.drop_last(), c)
    }
}

/// `host` without the square brackets that enclose an IPv6 address.
pub open spec fn strip_brackets(host: Seq<char>) -> Seq<char> {
    if host.len() >= 2 && host.first() == '[' && host.last() == ']' {
        host.subrange(1, host.len() - 1)
    } else {
        host
    }
}

/// What a bare `host:port` target names. The port is what follows the last
/// colon, the host what stands before it, without the square brackets of an
/// IPv6 address. A target without a colon, with an empty host or with a port
/// that is no port number is malformed.
pub open spec fn spec_host_port(target: Seq<char>) -> Result<EndpointView, WaitServiceError> {
    match last_index_of(target, ':') {
        None => Err(WaitServiceError::MalformedTarget),
        Some(colon) => {
            let host = strip_brackets(target.subrange(0, colon));
            match spec_port(target.subrange(colon + 1, target.len() as int)) {
                Some(port) => if host.len() > 0 {
                    Ok(EndpointView { host, port })
                } else {
                    Err(WaitServiceError::MalformedTarget)
                },
                None => Err(WaitServiceError::MalformedTarget),
            }
        },
    }
}

/// The place of the first `c` in `text` at or after `from`.
pub open spec fn first_index_from(text: Seq<char>, c: char, from: int) -> Option<int>
    decreases text.len() - from,
{
    if from < 0 || from >= text.len() {
        None
    } else if text[from] == c {
        Some(from)
    } else {
        first_index_from(text, c, from + 1)
    }
}

/// Whether `c` is a slash or a backslash.
pub open spec fn is_slash(c: char) -> bool {
    c == '/' || c == '\\'
}

/// Whether `c` ends the authority of a URL: a slash, a backslash, a question
/// mark or a hash sign.
pub open spec fn ends_authority(c: char) -> bool {
    is_slash(c) || c == '?' || c == '#'
}

/// The place at or after `from` where the authority of a URL ends: that of
/// the first character that ends it, or the end of the text.
pub open spec fn authority_end(text: Seq<char>, from: int) -> int
    decreases text.len() - from,
{
    if from < 0 || from >= text.len() {
        text.len() as int
    } else if ends_authority(text[from]) {
        from
    } else {
        authority_end(text, from + 1)
    }
}

/// The place at or after `from` of the first character that is no slash, or
/// the end of the text.
pub open spec fn after_slashes(text: Seq<char>, from: int) -> int
    decreases text.len() - from,
{
    if from < 0 || from >= text.len() {
        text.len() as int
    } else if is_slash(text[from]) {
        after_slashes(text, from + 1)
    } else {
        from
    }
}

/// The authority that `target` writes out, if it is a URL with one: what
/// stands between the slashes after the first colon, however many there
/// are, and the character that ends the authority. Nothing if the target
/// holds no colon.
pub open spec fn written_authority(target: Seq<char>) -> Option<Seq<char>> {
    match first_index_from(target, ':', 0) {
        Some(colon) => {
            let start = after_slashes(target, colon + 1);
            Some(target.subrange(start, authority_end(target, start)))
        },
        None => None,
    }
}

/// What follows the last `c` in `text`; all of `text` if it holds no `c`.
pub open spec fn after_last(text: Seq<char>, c: char) -> Seq<char> {
    match last_index_of(text, c) {
        Some(place) => text.subrange(place + 1, text.len() as int),
        None => text,
    }
}

/// The port that a URL writes out: in `scheme://user@host:port/path`, the
/// digits between the last colon of the authority, after any user
/// information, and the end of the authority. Nothing if the target holds no
/// colon or its authority ends in no port number.
pub open spec fn written_port(target: Seq<char>) -> Option<u16> {
    match written_authority(target) {
        Some(authority) => {
            let host_and_port = after_last(authority, '@');
            match last_index_of(host_and_port, ':') {
                Some(colon) => spec_port(
                    host_and_port.subrange(colon + 1, host_and_port.len() as int),
                ),
                None => None,
            }
        },
        None => None,
    }
}

/// The port that a scheme stands for when the URL gives none.
pub open spec fn spec_default_port(scheme: Seq<char>) -> Result<u16, WaitServiceError> {
    if scheme == "https"@ {
        Ok(DEFAULT_HTTPS_PORT)
    } else if scheme == "http"@ {
        Ok(DEFAULT_HTTP_PORT)
    } else {
        Err(WaitServiceError::UnknownScheme)
    }
}

/// The port of a URL: the port that the target writes out, whatever the
/// scheme; else the port that the parser found; else the default of the
/// scheme, where a scheme without a default is an error.
pub open spec fn spec_url_port(target: Seq<char>, parts: UrlPartsView) -> Result<
    u16,
    WaitServiceError,
> {
    match written_port(target) {
        Some(port) => Ok(port),
        None => match parts.port {
            Some(port) => Ok(port),
            None => spec_default_port(parts.scheme),
        },
    }
}

/// What the URL `target` names, where `parts` is what the parser found in
/// it. The port is that of [`spec_url_port`], and a missing port is found
/// before a missing host is. The host is the one the parser found, without
/// the square brackets of an IPv6 address; a URL without a host, or with an
/// empty one, is malformed.
pub open spec fn spec_endpoint_of_url(target: Seq<char>, parts: UrlPartsView) -> Result<
    EndpointView,
    WaitServiceError,
> {
    match spec_url_port(target, parts) {
        Err(error) => Err(error),
        Ok(port) => match parts.host {
            Some(host) => if strip_brackets(host).len() > 0 {
                Ok(EndpointView { host: strip_brackets(host), port })
            } else {
                Err(WaitServiceError::MalformedTarget)
            },
            None => Err(WaitServiceError::MalformedTarget),
        },
    }
}

/// What `target` names, where `parsed` is what the URL parser made of it.
///
/// - A target that the parser does not take for a URL is read as a bare
///   `host:port` pair.
/// - So is a target that the parser takes for a URL without a host, if it
///   reads as such a pair: `db:5432` names host `db` and port 5432, not a
///   URL of scheme `db`.
/// - Any other target is read as the URL that the parser found.
pub open spec fn spec_endpoint(target: Seq<char>, parsed: Option<UrlPartsView>) -> Result<
    EndpointView,
    WaitServiceError,
> {
    match parsed {
        Some(parts) => if parts.host is None && spec_host_port(target) is Ok {
            spec_host_port(target)
        } else {
            spec_endpoint_of_url(target, parts)
        },
        None => spec_host_port(target),
    }
}

/// The address of an endpoint whose host was looked up: the first address
/// that the lookup gave, at the endpoint's port. A lookup that gave nothing
/// leaves the host unresolved.
pub open spec fn spec_first_address(port: u16, ips: Seq<IpAddress>) -> Result<
    SocketAddress,
    WaitServiceError,
> {
    if ips.len() == 0 {
        Err(WaitServiceError::HostUnresolvable)
    } else {
        Ok(SocketAddress { ip: ips[0], port })
    }
}

/// The address of a target that names `endpoint`, or fails to name one,
/// where `ips` is what the lookup of its host gave.
pub open spec fn spec_resolution(
    endpoint: Result<EndpointView, WaitServiceError>,
    ips: Seq<IpAddress>,
) -> Result<SocketAddress, WaitServiceError> {
    match endpoint {
        Ok(endpoint) => spec_first_address(endpoint.port, ips),
        Err(error) => Err(error),
    }
}

/// Whether the first character of `target` is a digit. The URL parser takes
/// no such text for a URL.
pub open spec fn starts_with_digit(target: Seq<char>) -> bool {
    target.len() > 0 && is_digit(target[0])
}

/// The host and the port that `target` names. A target that starts with a
/// digit, such as `127.0.0.1:4000`, is a bare pair; what any other target
/// names depends on what the URL parser makes of it.
pub open spec fn named_endpoint(target: Seq<char>) -> Result<EndpointView, WaitServiceError> {
    if starts_with_digit(target) {
        spec_host_port(target)
    } else {
        spec_endpoint(target, url_parse(target))
    }
}

/// The address that `target` resolves to when the lookup of its host gives
/// `ips`.
pub open spec fn resolution(target: Seq<char>, ips: Seq<IpAddress>) -> Result<
    SocketAddress,
    WaitServiceError,
> {
    spec_resolution(named_endpoint(target), ips)
}

/// The digits read so far never spell more than the whole text does.
proof fn lemma_decimal_value_of_prefix(text: Seq<char>, k: int)
    requires
        0 <= k <= text.len(),
    ensures
        decimal_value(text.take(k)) <= decimal_value(text),
    decreases text.len(),
{
    if k == text.len() {
        assert(text.take(k) == text);
    } else {
        assert(text.drop_last().take(k) == text.take(k));
        lemma_decimal_value_of_prefix(text.drop_last(), k);
    }
}

/// The characters of `text`, in order.
fn chars_of(text: &str) -> (chars: Vec<char>)
    ensures
        chars@ == text@,
{
    let mut chars: Vec<char> = Vec::new();
    for c in it: text.chars()
        invariant
            it.seq() == text@,
            chars@ == it.seq().take(it.index() as int),
    {
        chars.push(c);
    }
    chars
}

/// Whether two texts are the same, character by character.
fn same_text(a: &str, b: &str) -> (same: bool)
    ensures
        same == (a@ == b@),
{
    let left = chars_of(a);
    let right = chars_of(b);
    if left.len() != right.len() {
        return false;
    }
    let mut i: usize = 0;
    while i < left.len()
        invariant
            i <= left.len(),
            left.len() == right.len(),
            left@ == a@,
            right@ == b@,
            left@.take(i as int) == right@.take(i as int),
        decreases left.len() - i,
    {
        if left[i] != right[i] {
            return false;
        }
        i = i + 1;
    }
    proof {
        assert(left@.take(i as int) == left@);
        assert(right@.take(i as int) == right@);
    }
    true
}

/// The place of the last `c` among `chars`.
fn last_index(chars: &Vec<char>, c: char) -> (place: Option<usize>)
    ensures
        match place {
            Some(i) => last_index_of(chars@, c) == Some(i as int) && i < chars.len(),
            None => last_index_of(chars@, c) is None,
        },
{
    let mut i: usize = chars.len();
    proof {
        assert(chars@.take(i as int) == chars@);
    }
    while i > 0
        invariant
            i <= chars.len(),
            last_index_of(chars@, c) == last_index_of(chars@.take(i as int), c),
        decreases i,
    {
        if chars[i - 1] == c {
            return Some(i - 1);
        }
        proof {
            assert(chars@.take(i as int).drop_last() == chars@.take(i - 1));
        }
        i = i - 1;
    }
    None
}

/// The place of the first `c` among `chars`.
fn first_index(chars: &Vec<char>, c: char) -> (place: Option<usize>)
    ensures
        match place {
            Some(i) => first_index_from(chars@, c, 0) == Some(i as int) && i < chars.len(),
            None => first_index_from(chars@, c, 0) is None,
        },
{
    let mut i: usize = 0;
    while i < chars.len()
        invariant
            i <= chars.len(),
            first_index_from(chars@, c, 0) == first_index_from(chars@, c, i as int),
        decreases chars.len() - i,
    {
        if chars[i] == c {
            return Some(i);
        }
        i = i + 1;
    }
    None
}

/// The place at or after `from` where the authority ends.
fn end_of_authority(chars: &Vec<char>, from: usize) -> (end: usize)
    requires
        from <= chars.len(),
    ensures
        end == authority_end(chars@, from as int),
        from <= end <= chars.len(),
{
    let mut i: usize = from;
    while i < chars.len()
        invariant
            from <= i <= chars.len(),
            authority_end(chars@, from as int) == authority_end(chars@, i as int),
        decreases chars.len() - i,
    {
        let c: char = chars[i];
        if c == '/' || c == '\\' || c == '?' || c == '#' {
            return i;
        }
        i = i + 1;
    }
    i
}

/// The place at or after `from` of the first character that is no slash.
fn skip_slashes(chars: &Vec<char>, from: usize) -> (start: usize)
    requires
        from <= chars.len(),
    ensures
        start == after_slashes(chars@, from as int),
        from <= start <= chars.len(),
{
    let mut i: usize = from;
    while i < chars.len()
        invariant
            from <= i <= chars.len(),
            after_slashes(chars@, from as int) == after_slashes(chars@, i as int),
        decreases chars.len() - i,
    {
        let c: char = chars[i];
        if !(c == '/' || c == '\\') {
            return i;
        }
        i = i + 1;
    }
    i
}

/// The characters of `chars` from `from` up to `to`.
fn slice_of(chars: &Vec<char>, from: usize, to: usize) -> (slice: Vec<char>)
    requires
        from <= to <= chars.len(),
    ensures
        slice@ == chars@.subrange(from as int, to as int),
{
    let mut slice: Vec<char> = Vec::new();
    let mut i: usize = from;
    while i < to
        invariant
            from <= i <= to <= chars.len(),
            slice@ == chars@.subrange(from as int, i as int),
        decreases to - i,
    {
        slice.push(chars[i]);
        i = i + 1;
    }
    slice
}

/// The port that the URL whose characters are `chars` writes out: see
/// [`written_port`].
fn written_port_of(chars: &Vec<char>) -> (port: Option<u16>)
    ensures
        port == written_port(chars@),
{
    let colon: usize = match first_index(chars, ':') {
        Some(place) => place,
        None => {
            return None;
        },
    };
    let start: usize = skip_slashes(chars, colon + 1);
    let authority = slice_of(chars, start, end_of_authority(chars, start));
    let host_and_port = match last_index(&authority, '@') {
        Some(at) => slice_of(&authority, at + 1, authority.len()),
        None => authority,
    };
    match last_index(&host_and_port, ':') {
        Some(place) => parse_port(&host_and_port, place + 1),
        None => None,
    }
}

/// `host` without the square brackets that enclose an IPv6 address.
fn without_brackets(host: String) -> (bare: String)
    ensures
        bare@ == strip_brackets(host@),
{
    let chars = chars_of(host.as_str());
    let n: usize = chars.len();
    if n >= 2 && chars[0] == '[' && chars[n - 1] == ']' {
        host.as_str().substring_char(1, n - 1).to_owned()
    } else {
        host
    }
}

/// The port that the characters from `from` on spell.
fn parse_port(chars: &Vec<char>, from: usize) -> (port: Option<u16>)
    requires
        from <= chars.len(),
    ensures
        port == spec_port(chars@.subrange(from as int, chars.len() as int)),
{
    let n: usize = chars.len();
    let ghost text = chars@.subrange(from as int, n as int);
    if from == n {
        return None;
    }
    let mut value: u32 = 0;
    let mut i: usize = from;
    while i < n
        invariant
            from <= i <= n,
            n == chars.len(),
            text == chars@.subrange(from as int, n as int),
            all_digits(text.take(i - from)),
            value == decimal_value(text.take(i - from)),
            value <= u16::MAX,
        decreases n - i,
    {
        let c: char = chars[i];
        if !(c >= '0' && c <= '9') {
            proof {
                assert(!is_digit(text[i - from]));
            }
            return None;
        }
        let digit: u32 = c as u32 - '0' as u32;
        proof {
            let read = text.take(i - from + 1);
            assert(read.drop_last() == text.take(i - from));
            assert(all_digits(read));
            lemma_decimal_value_of_prefix(text, i - from + 1);
        }
        value = value * 10 + digit;
        if value > 65535 {
            return None;
        }
        i = i + 1;
    }
    proof {
        assert(text.take(i - from) == text);
    }
    Some(value as u16)
}

/// The port that a scheme stands for when the URL gives none: 443 for
/// `https`, 80 for `http`. Any other scheme has none.
pub fn get_default_port(scheme: &str) -> (port: Result<u16, WaitServiceError>)
    ensures
        port == spec_default_port(scheme@),
{
    if same_text(scheme, "https") {
        Ok(DEFAULT_HTTPS_PORT)
    } else if same_text(scheme, "http") {
        Ok(DEFAULT_HTTP_PORT)
    } else {
        Err(WaitServiceError::UnknownScheme)
    }
}

/// Reads `target` as a bare `host:port` pair: see [`spec_host_port`].
pub fn parse_host_port(target: &str) -> (result: Result<Endpoint, WaitServiceError>)
    ensures
        endpoint_result_view(result) == spec_host_port(target@),
{
    let chars = chars_of(target);
    let colon: usize = match last_index(&chars, ':') {
        Some(place) => place,
        None => {
            return Err(WaitServiceError::MalformedTarget);
        },
    };
    let port: u16 = match parse_port(&chars, colon + 1) {
        Some(port) => port,
        None => {
            return Err(WaitServiceError::MalformedTarget);
        },
    };
    let bracketed = colon >= 2 && chars[0] == '[' && chars[colon - 1] == ']';
    let from: usize = if bracketed {
        1
    } else {
        0
    };
    let to: usize = if bracketed {
        colon - 1
    } else {
        colon
    };
    proof {
        assert(strip_brackets(target@.subrange(0, colon as int)) == target@.subrange(
            from as int,
            to as int,
        ));
    }
    if from == to {
        return Err(WaitServiceError::MalformedTarget);
    }
    let host = target.substring_char(from, to).to_owned();
    Ok(Endpoint { host, port })
}

/// What the URL `target` names, where `parts` is what the parser found in
/// it: see [`spec_endpoint_of_url`].
pub fn endpoint_of_url(target: &str, parts: UrlParts) -> (result: Result<
    Endpoint,
    WaitServiceError,
>)
    ensures
        endpoint_result_view(result) == spec_endpoint_of_url(target@, parts@),
{
    let chars = chars_of(target);
    let port: u16 = match written_port_of(&chars) {
        Some(port) => port,
        None => match parts.port {
            Some(port) => port,
            None => match get_default_port(parts.scheme.as_str()) {
                Ok(port) => port,
                Err(error) => {
                    return Err(error);
                },
            },
        },
    };
    match parts.host {
        Some(host) => {
            let host = without_brackets(host);
            if host.as_str().unicode_len() > 0 {
                Ok(Endpoint { host, port })
            } else {
                Err(WaitServiceError::MalformedTarget)
            }
        },
        None => Err(WaitServiceError::MalformedTarget),
    }
}

/// What `target` names, given what the URL parser made of it: see
/// [`spec_endpoint`].
pub fn endpoint_of(target: &str, parsed: Option<UrlParts>) -> (result: Result<
    Endpoint,
    WaitServiceError,
>)
    ensures
        endpoint_result_view(result) == spec_endpoint(target@, parsed_view(parsed)),
{
    match parsed {
        Some(parts) => {
            if parts.host.is_none() {
                match parse_host_port(target) {
                    Ok(pair) => {
                        return Ok(pair);
                    },
                    Err(_) => {},
                }
            }
            endpoint_of_url(target, parts)
        },
        None => parse_host_port(target),
    }
}

/// Finds the host and the port that `target` names: see [`named_endpoint`].
/// The target is given to the URL parser, and what the parser made of it to
/// [`endpoint_of`].
pub fn parse_target(target: &str) -> (result: Result<Endpoint, WaitServiceError>)
    ensures
        endpoint_result_view(result) == named_endpoint(target@),
{
    endpoint_of(target, parse_url(target))
}

/// Settles on the address of an endpoint whose host was looked up: the first
/// of `ips`, at the endpoint's port.
pub fn socket_addr_from_host_and_port(endpoint: &Endpoint, ips: &Vec<IpAddress>) -> (result: Result<
    SocketAddress,
    WaitServiceError,
>)
    ensures
        result == spec_first_address(endpoint.port, ips@),
{
    if ips.len() == 0 {
        Err(WaitServiceError::HostUnresolvable)
    } else {
        Ok(SocketAddress { ip: ips[0], port: endpoint.port })
    }
}

/// Resolves `target` to one address, where `ips` is what the lookup of its
/// host gave. A target that names no endpoint fails with the error of
/// [`parse_target`], whatever `ips` holds.
pub fn resolve_address(target: &str, ips: &Vec<IpAddress>) -> (result: Result<
    SocketAddress,
    WaitServiceError,
>)
    ensures
        result == resolution(target@, ips@),
{
    match parse_target(target) {
        Ok(endpoint) => socket_addr_from_host_and_port(&endpoint, ips),
        Err(error) => Err(error),
    }
}

/// Resolving is repeatable: the same target with the same lookup answer
/// resolves to the same address, or fails with the same error.
pub proof fn lemma_resolution_is_repeatable(
    first_target: Seq<char>,
    first_ips: Seq<IpAddress>,
    second_target: Seq<char>,
    second_ips: Seq<IpAddress>,
)
    requires
        first_target == second_target,
        first_ips == second_ips,
    ensures
        resolution(first_target, first_ips) == resolution(second_target, second_ips),
{
}

/// A port that a URL writes out is the port of its endpoint, whatever the
/// scheme and whatever port the parser reports: `ws://h:80` names port 80.
pub proof fn lemma_written_port_is_used(target: Seq<char>, parts: UrlPartsView, port: u16)
    requires
        written_port(target) == Some(port),
        parts.host matches Some(host) && strip_brackets(host).len() > 0,
    ensures
        spec_endpoint(target, Some(parts)) == Ok::<EndpointView, WaitServiceError>(
            EndpointView { host: strip_brackets(parts.host->Some_0), port },
        ),
{
}

/// A URL of scheme `https` or `http` that writes no port names the default
/// port of its scheme.
pub proof fn lemma_default_port_is_used(target: Seq<char>, parts: UrlPartsView)
    requires
        written_port(target) is None,
        parts.port is None,
        parts.host matches Some(host) && strip_brackets(host).len() > 0,
        parts.scheme == "https"@ || parts.scheme == "http"@,
    ensures
        spec_endpoint(target, Some(parts)) == Ok::<EndpointView, WaitServiceError>(
            EndpointView {
                host: strip_brackets(parts.host->Some_0),
                port: if parts.scheme == "https"@ {
                    DEFAULT_HTTPS_PORT
                } else {
                    DEFAULT_HTTP_PORT
                },
            },
        ),
{
}

/// A target that reads as a bare pair names that pair unless the parser
/// finds a URL with a host in it: whether the parser refuses the target or
/// takes it for a URL without a host.
pub proof fn lemma_bare_pair_is_read_as_pair(target: Seq<char>, parsed: Option<UrlPartsView>)
    requires
        spec_host_port(target) is Ok,
        parsed matches Some(parts) ==> parts.host is None,
    ensures
        spec_endpoint(target, parsed) == spec_host_port(target),
{
}

/// A target that starts with a digit resolves without regard to the URL
/// parser: if it reads as a pair, to the first address of the lookup at the
/// port of the pair.
pub proof fn lemma_target_that_starts_with_a_digit(target: Seq<char>, ips: Seq<IpAddress>)
    requires
        starts_with_digit(target),
    ensures
        named_endpoint(target) == spec_host_port(target),
        spec_host_port(target) is Ok && ips.len() > 0 ==> resolution(target, ips) == Ok::<
            SocketAddress,
            WaitServiceError,
        >(SocketAddress { ip: ips[0], port: spec_host_port(target)->Ok_0.port }),
{
}

/// The port of a resolved address is the one that the target names; the
/// lookup decides the IP address only.
pub proof fn lemma_resolved_port(target: Seq<char>, ips: Seq<IpAddress>)
    ensures
        resolution(target, ips) matches Ok(address) ==> named_endpoint(target) matches Ok(endpoint)
            && address.port == endpoint.port && address.ip == ips[0] && ips.len() > 0,
{
}

} // verus!
