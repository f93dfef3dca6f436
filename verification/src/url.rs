//! Broker addresses.
//!
//! A broker address is written `["mqtt://" | "mqtts://"] host [":" port]`.
//! [`resolve`] says what each text denotes; [`parse_mqtt_url`] computes it.

use crate::text::{
    find, is_whitespace, lemma_position_contains, lemma_position_is, lemma_trim_behind_prefix,
    lemma_trim_end_is_prefix, lemma_trim_end_of_tight, lemma_trim_ignores_padding, parse_u16,
    position, read_u16, slice_to_string, starts_with, to_chars, trim, trim_bounds, trim_end,
    trim_start,
};
use vstd::prelude::*;

verus! {

/// Why a text is no broker address.
#[derive(Debug, Clone, PartialEq, Eq)]
pub enum UrlError {
    /// What follows the colon is no 16-bit unsigned number; holds that text.
    InvalidPort(String),
    /// The address holds more than one colon after its scheme.
    InvalidFormat,
}

/// The mathematical value of a [`UrlError`].
pub enum UrlFault {
    InvalidPort(Seq<char>),
    InvalidFormat,
}

impl View for UrlError {
    type V = UrlFault;

    open spec fn view(&self) -> UrlFault {
        match self {
            UrlError::InvalidPort(text) => UrlFault::InvalidPort(text@),
            UrlError::InvalidFormat => UrlFault::InvalidFormat,
        }
    }
}

/// The scheme that asks for a secure transport, `mqtts://`.
pub open spec fn secure_scheme() -> Seq<char> {
    seq!['m', 'q', 't', 't', 's', ':', '/', '/']
}

/// The scheme of a plain transport, `mqtt://`.
pub open spec fn plain_scheme() -> Seq<char> {
    seq!['m', 'q', 't', 't', ':', '/', '/']
}

/// The port number that an address without one stands for.
pub open spec fn default_port(secure: bool) -> u16 {
    if secure {
        8883
    } else {
        1883
    }
}

/// Splits a scheme off the front of `address`: what is left of it, and
/// whether the scheme asked for a secure transport. An address without a
/// scheme is left whole and is not secure.
pub open spec fn strip_scheme(address: Seq<char>) -> (Seq<char>, bool) {
    if secure_scheme().is_prefix_of(address) {
        (address.skip(secure_scheme().len() as int), true)
    } else if plain_scheme().is_prefix_of(address) {
        (address.skip(plain_scheme().len() as int), false)
    } else {
        (address, false)
    }
}

/// What the text `url` denotes: host, port and whether a secure transport
/// was asked for, or the reason why it denotes no broker.
///
/// Whitespace around the text does not count. After the scheme, a text
/// without a colon is a host at the scheme's default port; with one colon it
/// is a host and a port; with more it is malformed. The host is not examined
/// any further.
pub open spec fn resolve(url: Seq<char>) -> Result<(Seq<char>, u16, bool), UrlFault> {
    let (rest, secure) = strip_scheme(trim(url));
    let colon = position(rest, ':');
    if colon == rest.len() {
        Ok((rest, default_port(secure), secure))
    } else {
        let port_text = rest.skip(colon + 1);
        if port_text.contains(':') {
            Err(UrlFault::InvalidFormat)
        } else {
            match parse_u16(port_text) {
                Some(port) => Ok((rest.take(colon), port, secure)),
                None => Err(UrlFault::InvalidPort(port_text)),
            }
        }
    }
}

/// The text that reports `fault` to a caller.
pub open spec fn fault_text(fault: UrlFault) -> Seq<char> {
    match fault {
        UrlFault::InvalidPort(text) => "Invalid port number: "@ + text,
        UrlFault::InvalidFormat => "Invalid MQTT URL format"@,
    }
}

/// The text of a scheme.
pub open spec fn scheme(secure: bool) -> Seq<char> {
    if secure {
        secure_scheme()
    } else {
        plain_scheme()
    }
}

/// A scheme at the front of an address is split off, and it alone decides
/// whether the transport is to be secure.
pub proof fn lemma_scheme_is_split_off(secure: bool, rest: Seq<char>)
    ensures
        strip_scheme(scheme(secure) + rest) == (rest, secure),
{
    let address = scheme(secure) + rest;
    let n = scheme(secure).len() as int;
    assert(address.subrange(0, n) =~= scheme(secure));
    assert(address.skip(n) =~= rest);
    if !secure && secure_scheme().is_prefix_of(address) {
        assert(address.subrange(0, 8)[4] == secure_scheme()[4]);
        assert(address[4] == plain_scheme()[4]);
    }
}

/// Whitespace around an address does not change what it denotes.
pub proof fn lemma_padding_is_ignored(before: Seq<char>, url: Seq<char>, after: Seq<char>)
    requires
        forall|i: int| 0 <= i < before.len() ==> is_whitespace(#[trigger] before[i]),
        forall|i: int| 0 <= i < after.len() ==> is_whitespace(#[trigger] after[i]),
    ensures
        resolve(before + url + after) == resolve(url),
{
    lemma_trim_ignores_padding(before, url, after);
}

/// A scheme and a host without a colon denote that host at the scheme's
/// default port.
pub proof fn lemma_host_alone(secure: bool, host: Seq<char>)
    requires
        !host.contains(':'),
        host.len() > 0 ==> !is_whitespace(host.last()),
    ensures
        resolve(scheme(secure) + host) == Ok::<(Seq<char>, u16, bool), UrlFault>(
            (host, default_port(secure), secure),
        ),
{
    lemma_trim_behind_prefix(scheme(secure), host);
    lemma_trim_end_of_tight(host);
    lemma_scheme_is_split_off(secure, host);
    lemma_position_contains(host, ':');
}

/// A scheme, a host without a colon, a colon and a text without a colon
/// denote that host at the port that the text denotes; where the text
/// denotes no port, the address denotes no broker and the text is reported.
pub proof fn lemma_host_and_port(secure: bool, host: Seq<char>, port_text: Seq<char>)
    requires
        !host.contains(':'),
        !port_text.contains(':'),
        port_text.len() > 0 ==> !is_whitespace(port_text.last()),
    ensures
        resolve(scheme(secure) + (host + seq![':'] + port_text)) == match parse_u16(port_text) {
            Some(port) => Ok::<(Seq<char>, u16, bool), UrlFault>((host, port, secure)),
            None => Err(UrlFault::InvalidPort(port_text)),
        },
{
    let rest = host + seq![':'] + port_text;
    assert(rest.last() == if port_text.len() > 0 {
        port_text.last()
    } else {
        ':'
    });
    lemma_trim_behind_prefix(scheme(secure), rest);
    lemma_trim_end_of_tight(rest);
    lemma_scheme_is_split_off(secure, rest);
    assert forall|i: int| 0 <= i < host.len() implies rest[i] != ':' by {
        assert(rest[i] == host[i]);
        assert(host.contains(host[i]));
    }
    assert(rest[host.len() as int] == ':');
    lemma_position_is(rest, ':', host.len() as int);
    assert(rest.skip(host.len() + 1 as int) =~= port_text);
    assert(rest.take(host.len() as int) =~= host);
}

/// An address with a second colon behind its scheme denotes no broker,
/// whatever stands around the colons.
pub proof fn lemma_second_colon_is_malformed(
    secure: bool,
    host: Seq<char>,
    middle: Seq<char>,
    end: Seq<char>,
)
    requires
        !host.contains(':'),
        end.len() > 0 ==> !is_whitespace(end.last()),
    ensures
        resolve(scheme(secure) + (host + seq![':'] + middle + seq![':'] + end)) == Err::<
            (Seq<char>, u16, bool),
            UrlFault,
        >(UrlFault::InvalidFormat),
{
    let rest = host + seq![':'] + middle + seq![':'] + end;
    assert(rest.last() == if end.len() > 0 {
        end.last()
    } else {
        ':'
    });
    lemma_trim_behind_prefix(scheme(secure), rest);
    lemma_trim_end_of_tight(rest);
    lemma_scheme_is_split_off(secure, rest);
    assert forall|i: int| 0 <= i < host.len() implies rest[i] != ':' by {
        assert(rest[i] == host[i]);
        assert(host.contains(host[i]));
    }
    assert(rest[host.len() as int] == ':');
    lemma_position_is(rest, ':', host.len() as int);
    let port_text = rest.skip(host.len() + 1 as int);
    assert(port_text[middle.len() as int] == ':');
}

/// An address without a scheme denotes what it denotes with the plain
/// scheme before it.
pub proof fn lemma_no_scheme_is_plain(address: Seq<char>)
    requires
        address.len() > 0 ==> !is_whitespace(address.first()),
        !secure_scheme().is_prefix_of(address),
        !plain_scheme().is_prefix_of(address),
    ensures
        resolve(address) == resolve(plain_scheme() + address),
{
    lemma_trim_behind_prefix(plain_scheme(), address);
    let trimmed = trim_end(address);
    lemma_scheme_is_split_off(false, trimmed);
    // Trimming the bare address trims its end only.
    assert(trim_start(address) == address);
    assert(trim(address) == trimmed);
    let keep = lemma_trim_end_is_prefix(address);
    assert(trimmed == address.take(keep));
    if secure_scheme().is_prefix_of(trimmed) {
        assert(trimmed.subrange(0, 8) =~= address.subrange(0, 8));
    }
    if plain_scheme().is_prefix_of(trimmed) {
        assert(trimmed.subrange(0, 7) =~= address.subrange(0, 7));
    }
}

impl UrlError {
    /// The text that reports this error to a caller.
    pub fn message(&self) -> (text: String)
        ensures
            text@ == fault_text(self@),
    {
        match self {
            UrlError::InvalidPort(port) => {
                let mut text = "Invalid port number: ".to_owned();
                text.append(port.as_str());
                text
            },
            UrlError::InvalidFormat => "Invalid MQTT URL format".to_owned(),
        }
    }
}

/// Resolves a broker address into host, port and the secure-transport flag.
pub fn parse_mqtt_url(url: &str) -> (resolved: Result<(String, u16, bool), UrlError>)
    ensures
        match resolve(url@) {
            Ok(endpoint) => resolved matches Ok(found) && found.0@ == endpoint.0 && found.1
                == endpoint.1 && found.2 == endpoint.2,
            Err(fault) => resolved matches Err(error) && error@ == fault,
        },
{
    let chars = to_chars(url);
    let (lo, hi) = trim_bounds(&chars);
    let secure_prefix = to_chars("mqtts://");
    let plain_prefix = to_chars("mqtt://");
    proof {
        reveal_strlit("mqtts://");
        reveal_strlit("mqtt://");
        assert(secure_prefix@ =~= secure_scheme());
        assert(plain_prefix@ =~= plain_scheme());
    }
    let ghost trimmed = trim(url@);
    let (start, secure) = if starts_with(&chars, lo, hi, &secure_prefix) {
        (lo + 8, true)
    } else if starts_with(&chars, lo, hi, &plain_prefix) {
        (lo + 7, false)
    } else {
        (lo, false)
    };
    let ghost rest = strip_scheme(trimmed).0;
    proof {
        assert(rest =~= chars@.subrange(start as int, hi as int));
    }
    let colon = find(&chars, start, hi, ':');
    if colon == hi {
        let host = slice_to_string(url, start, hi);
        return Ok((host, if secure { 8883 } else { 1883 }, secure));
    }
    let ghost port_text = rest.skip(colon - start + 1);
    proof {
        assert(port_text =~= chars@.subrange(colon + 1, hi as int));
        assert(rest.take(colon - start) =~= chars@.subrange(start as int, colon as int));
    }
    let second = find(&chars, colon + 1, hi, ':');
    proof {
        lemma_position_contains(port_text, ':');
    }
    if second < hi {
        return Err(UrlError::InvalidFormat);
    }
    match read_u16(&chars, colon + 1, hi) {
        Some(port) => Ok((slice_to_string(url, start, colon), port, secure)),
        None => Err(UrlError::InvalidPort(slice_to_string(url, colon + 1, hi))),
    }
}

} // verus!
