//! Tickets: the text by which a receiver finds a sender and the collection
//! that it offers.
//!
//! A ticket is the hexadecimal hash of the collection, a colon, and the
//! sender's address as JSON in base64 without padding.

use base64::Engine;
use vstd::prelude::*;
use vstd::string::*;
use vstd::utf8::encode_utf8;

use crate::address::{SocketAddress, TransportAddress};
use crate::blob::{hash_text_fits, parsed_hash};
use crate::text::split_at_first;

verus! {

/// `base64::DecodeError`, why a text is not base64.
#[verifier::external_type_specification]
#[verifier::external_body]
pub struct ExDecodeError(base64::DecodeError);

/// `serde_json::Error`, why a text is not the JSON that was expected.
#[verifier::external_type_specification]
#[verifier::external_body]
pub struct ExJsonError(serde_json::Error);

/// Why a ticket could not be made or read.
#[derive(Debug)]
pub enum TicketError {
    /// The ticket has no colon.
    Format,
    /// The part before the colon is not a hash; holds the reason.
    Hash(String),
    /// The part behind the colon is not base64.
    Base64(base64::DecodeError),
    /// The address is not the JSON of an endpoint address.
    Address(serde_json::Error),
}

impl TicketError {
    /// The text of the error.
    pub fn message(&self) -> (r: String)
        ensures
            match *self {
                TicketError::Format => r@ == "invalid ticket format"@,
                TicketError::Hash(reason) => r@ == reason@,
                TicketError::Base64(error) => to_string_from_display_ensures::<
                    base64::DecodeError,
                >(&error, r),
                TicketError::Address(error) => to_string_from_display_ensures::<serde_json::Error>(
                    &error,
                    r,
                ),
            },
    {
        match self {
            TicketError::Format => "invalid ticket format".to_owned(),
            TicketError::Hash(reason) => reason.clone(),
            TicketError::Base64(error) => error.to_string(),
            TicketError::Address(error) => error.to_string(),
        }
    }
}

/// The text that `base64` writes for `bytes` with its standard alphabet and
/// no padding.
pub uninterp spec fn base64_encoded(bytes: Seq<u8>) -> Seq<char>;

/// The bytes that `base64` reads from `text` with its standard alphabet and
/// no padding, or its error.
pub uninterp spec fn base64_decoded(text: Seq<char>) -> Result<Seq<u8>, base64::DecodeError>;

/// Whether `text` is read as the base64 of `bytes`.
pub open spec fn decodes_to(text: Seq<char>, bytes: Seq<u8>) -> bool {
    match base64_decoded(text) {
        Ok(read) => read == bytes,
        Err(_) => false,
    }
}

/// Calls `STANDARD_NO_PAD.encode` of `base64`.
///
/// The result is named by `base64_encoded`. It has four bytes for each three
/// of `bytes`, rounded up, and decoding it gives `bytes` back. The call panics where the text would not fit in memory.
#[verifier::external_body]
pub(crate) fn base64_encode(bytes: &Vec<u8>) -> (r: String)
    requires
        4 * ((bytes@.len() + 2) / 3) <= isize::MAX,
    ensures
        r@ == base64_encoded(bytes@),
        encode_utf8(r@).len() == (4 * bytes@.len() + 2) / 3,
        decodes_to(r@, bytes@),
{
    base64::engine::general_purpose::STANDARD_NO_PAD.encode(bytes)
}

/// The bytes that were read, or the error.
pub open spec fn decode_result_view(r: Result<Vec<u8>, base64::DecodeError>) -> Result<
    Seq<u8>,
    base64::DecodeError,
> {
    match r {
        Ok(bytes) => Ok(bytes@),
        Err(error) => Err(error),
    }
}

/// Calls `STANDARD_NO_PAD.decode` of `base64`. The result is named by
/// `base64_decoded`; it has no more bytes than the text.
#[verifier::external_body]
pub(crate) fn base64_decode(text: &str) -> (r: Result<Vec<u8>, base64::DecodeError>)
    ensures
        decode_result_view(r) == base64_decoded(text@),
        r is Ok ==> r->Ok_0@.len() <= encode_utf8(text@).len(),
{
    base64::engine::general_purpose::STANDARD_NO_PAD.decode(text)
}

/// The JSON that `serde_json` writes for the endpoint address made of an
/// identity and direct addresses.
pub uninterp spec fn endpoint_json(id: iroh::EndpointId, ips: Seq<SocketAddress>) -> Seq<u8>;

/// `iroh::EndpointAddr`, where an endpoint can be reached. The one that was read
/// from a ticket is handed on as it is.
#[verifier::external_type_specification]
#[verifier::external_body]
pub struct ExEndpointAddr(iroh::EndpointAddr);

/// The identity that an endpoint address holds.
pub uninterp spec fn endpoint_id(addr: iroh::EndpointAddr) -> iroh::EndpointId;

/// The ways to reach the endpoint that an endpoint address holds, the flow
/// information of IPv6 addresses left out.
pub uninterp spec fn endpoint_transports(addr: iroh::EndpointAddr) -> Set<TransportAddress>;

/// The endpoint address that `serde_json` reads from `json`, or its error.
pub uninterp spec fn decoded_endpoint(json: Seq<u8>) -> Result<
    iroh::EndpointAddr,
    serde_json::Error,
>;

/// The direct addresses as ways to reach an endpoint.
pub open spec fn as_transports(ips: Seq<SocketAddress>) -> Seq<TransportAddress> {
    ips.map_values(|ip: SocketAddress| TransportAddress::Ip(ip))
}

/// Calls `serde_json::to_vec` on the `iroh::EndpointAddr` that
/// `EndpointAddr::from_parts` makes of the arguments, each IPv6 address by way
/// of its text.
///
/// The result is named by `endpoint_json`. It is never an error: the
/// identity is written as 64 hexadecimal characters and each address as text
/// of at most 58, which also bounds the length. It is read as an endpoint
/// address with the identity and the same set of addresses; the set is kept
/// ordered, so the order and the repetitions of `ips` are not.
#[verifier::external_body]
pub(crate) fn endpoint_to_json(id: &iroh::EndpointId, ips: &Vec<SocketAddress>) -> (r: Result<
    Vec<u8>,
    serde_json::Error,
>)
    ensures
        r is Ok,
        r->Ok_0@ == endpoint_json(*id, ips@),
        r->Ok_0@.len() <= 84 + 68 * ips@.len(),
        decoded_endpoint(r->Ok_0@) is Ok,
        endpoint_id(decoded_endpoint(r->Ok_0@)->Ok_0) == *id,
        endpoint_transports(decoded_endpoint(r->Ok_0@)->Ok_0) == as_transports(ips@).to_set(),
{
    let addrs = ips.iter().map(|ip| iroh::TransportAddr::Ip(match *ip {
        SocketAddress::V4(v4) => (v4.octets, v4.port).into(),
        SocketAddress::V6(v6) => {
            let s = v6.segments;
            format!("[{:x}:{:x}:{:x}:{:x}:{:x}:{:x}:{:x}:{:x}%{}]:{}",
                s[0], s[1], s[2], s[3], s[4], s[5], s[6], s[7], v6.scope_id, v6.port,
            ).parse().unwrap()
        },
    }));
    serde_json::to_vec(&iroh::EndpointAddr::from_parts(*id, addrs))
}

/// Calls `serde_json::from_slice` for an `iroh::EndpointAddr`. The result is
/// named by `decoded_endpoint`. An identity whose length in bits does not fit
/// in a `usize` makes a length computation panic; no text in `json` is longer
/// than `json`.
#[verifier::external_body]
pub(crate) fn endpoint_from_json(json: &Vec<u8>) -> (r: Result<
    iroh::EndpointAddr,
    serde_json::Error,
>)
    requires
        json@.len() <= usize::MAX / 8,
    ensures
        r == decoded_endpoint(json@),
{
    serde_json::from_slice(json)
}

/// What a ticket says: the hash of the collection and the address of the
/// sender; nothing where the text is not a ticket.
pub open spec fn read_ticket(text: Seq<char>) -> Option<(Seq<u8>, iroh::EndpointAddr)> {
    match split_at_first(text, ':') {
        Some((hash_text, addr_text)) => match (parsed_hash(hash_text), base64_decoded(addr_text)) {
            (Ok(hash), Ok(json)) => match decoded_endpoint(json) {
                Ok(addr) => Some((hash, addr)),
                Err(_) => None,
            },
            _ => None,
        },
        None => None,
    }
}

/// Whether the part of a ticket behind the first colon is short enough to be
/// read as an address: its length in bits must fit in a `usize`.
pub open spec fn address_text_fits(text: Seq<char>) -> bool {
    encode_utf8(text).len() <= usize::MAX / 8
}

/// Whether the parts of a ticket around the first colon are short enough to be
/// read.
pub open spec fn ticket_fits(ticket: Seq<char>) -> bool {
    match split_at_first(ticket, ':') {
        Some((hash_text, addr_text)) => hash_text_fits(hash_text) && address_text_fits(addr_text),
        None => true,
    }
}

/// The first `i` characters take no more bytes than the whole text, nor do the
/// characters behind them.
proof fn lemma_part_bytes(text: Seq<char>, i: int)
    requires
        0 <= i <= text.len(),
    ensures
        encode_utf8(text.take(i)).len() <= encode_utf8(text).len(),
        encode_utf8(text.skip(i)).len() <= encode_utf8(text).len(),
    decreases i,
{
    if i > 0 {
        let rest = text.drop_first();
        lemma_part_bytes(rest, i - 1);
        assert(text.take(i).drop_first() =~= rest.take(i - 1));
        assert(text.take(i)[0] == text[0]);
        assert(text.skip(i) =~= rest.skip(i - 1));
    } else {
        assert(text.skip(i) =~= text);
    }
}

/// A ticket that is short enough as a whole has parts that are.
pub proof fn law_short_ticket_fits(ticket: Seq<char>)
    requires
        encode_utf8(ticket).len() <= usize::MAX / 8,
    ensures
        ticket_fits(ticket),
{
    ticket.index_of_first_ensures(':');
    match ticket.index_of_first(':') {
        Some(i) => {
            lemma_part_bytes(ticket, i);
            lemma_part_bytes(ticket, i + 1);
        },
        None => {},
    }
}

/// A text with a colon says what its parts say: the first part is read as a
/// hash, the other as the base64 of the JSON of an address. A text without a
/// colon, or with a part that cannot be read, says nothing.
pub proof fn law_ticket_says_what_its_parts_say(hash_text: Seq<char>, addr_text: Seq<char>)
    requires
        !hash_text.contains(':'),
    ensures
        read_ticket(hash_text) is None,
        read_ticket(hash_text + seq![':'] + addr_text) matches Some((hash, addr)) ==> parsed_hash(
            hash_text,
        ) == Ok::<Seq<u8>, Seq<char>>(hash) && base64_decoded(addr_text) is Ok && decoded_endpoint(
            base64_decoded(addr_text)->Ok_0,
        ) == Ok::<iroh::EndpointAddr, serde_json::Error>(addr),
        parsed_hash(hash_text) is Ok && base64_decoded(addr_text) is Ok && decoded_endpoint(
            base64_decoded(addr_text)->Ok_0,
        ) is Ok ==> read_ticket(hash_text + seq![':'] + addr_text) is Some,
{
    crate::text::law_split_parts(hash_text, ':');
    crate::text::law_split_at_first(hash_text, ':', addr_text);
}

/// The ways to reach an endpoint by direct addresses are those addresses, one
/// for each and in order.
pub proof fn law_transports_are_the_addresses(ips: Seq<SocketAddress>)
    ensures
        as_transports(ips).len() == ips.len(),
        forall|i: int|
            0 <= i < ips.len() ==> #[trigger] as_transports(ips)[i] == TransportAddress::Ip(ips[i]),
{
}

/// A text is read as the base64 of at most one byte string, the one that it was
/// decoded to, and what was decoded keeps its bytes or its error.
pub proof fn law_decoding_keeps_content(
    text: Seq<char>,
    bytes: Seq<u8>,
    r: Result<Vec<u8>, base64::DecodeError>,
)
    ensures
        decodes_to(text, bytes) <==> base64_decoded(text) is Ok && base64_decoded(text)->Ok_0
            == bytes,
        decode_result_view(r) is Ok <==> r is Ok,
        r matches Ok(read) ==> decode_result_view(r)->Ok_0 == read@,
        r matches Err(error) ==> decode_result_view(r)->Err_0 == error,
{
}

} // verus!
