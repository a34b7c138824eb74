//! The sender side: what an import yields, and the ticket for a collection.

use vstd::prelude::*;

use crate::address::{
    law_ipv6_reachable_unless_loopback, law_shared_addresses_exact, pick_shared_addresses,
    shared_addresses, EndpointAddress, SocketAddress, TransportAddress,
};
use crate::blob::{
    hash_text_fits, hash_to_hex, hex_value, law_hash_length_fits, law_lower_hex_chars,
    law_lower_hex_injective, law_lower_hex_reads_as_bytes, lower_hex, reads_as_hash,
};
use crate::text::{law_split_at_first, split_at_first};
use crate::ticket::{
    as_transports, base64_encode, base64_encoded, endpoint_id, endpoint_json, endpoint_to_json,
    endpoint_transports, read_ticket, ticket_fits, TicketError,
};

verus! {

/// Which relay servers an endpoint uses.
#[derive(Clone, Copy, Debug, PartialEq, Eq)]
pub enum RelayChoice {
    /// The public relay servers, for transfers over the internet.
    Public,
    /// None: only the local network.
    Disabled,
}

/// The relay servers to use.
pub fn relay_choice(use_relay: bool) -> (r: RelayChoice)
    ensures
        r == if use_relay {
            RelayChoice::Public
        } else {
            RelayChoice::Disabled
        },
{
    if use_relay {
        RelayChoice::Public
    } else {
        RelayChoice::Disabled
    }
}

/// What the blob store says of a blob after its import.
#[derive(Clone, Debug, PartialEq, Eq)]
pub enum ImportStatus {
    /// The blob is complete and has this size in bytes.
    Complete(u64),
    /// Anything else, as the store describes it.
    Other(String),
}

/// Why an import failed.
#[derive(Clone, Debug, PartialEq, Eq)]
pub enum ImportError {
    /// The blob was not complete after the import; holds what the store said.
    Incomplete(String),
    /// A `content://` URI was given on a platform that has none.
    ContentUri,
}

impl ImportError {
    /// The text of the error.
    pub fn message(&self) -> (r: String)
        ensures
            match *self {
                ImportError::Incomplete(status) => r@ == "blob not complete after import: "@
                    + status@,
                ImportError::ContentUri => r@ == "content:// URIs are only supported on Android"@,
            },
    {
        match self {
            ImportError::Incomplete(status) => "blob not complete after import: ".to_owned().concat(
                status.as_str(),
            ),
            ImportError::ContentUri => "content:// URIs are only supported on Android".to_owned(),
        }
    }
}

/// The text of the ticket for a collection, served by an endpoint: the hash in
/// hexadecimal, a colon, and the JSON of the identity and the shared addresses
/// in base64.
pub open spec fn ticket_text(
    root_hash: Seq<u8>,
    id: iroh::EndpointId,
    addrs: Seq<TransportAddress>,
) -> Seq<char> {
    lower_hex(root_hash) + seq![':'] + base64_encoded(endpoint_json(id, shared_addresses(addrs)))
}

/// The ticket for the same collection and endpoint is the same each time, also
/// where addresses came or went that are not shared.
pub proof fn law_same_ticket_each_time(
    root_hash: Seq<u8>,
    id: iroh::EndpointId,
    addrs: Seq<TransportAddress>,
    later: Seq<TransportAddress>,
)
    requires
        shared_addresses(addrs) == shared_addresses(later),
    ensures
        ticket_text(root_hash, id, addrs) == ticket_text(root_hash, id, later),
{
}

/// A ticket splits at its first colon into the hash in hexadecimal and the
/// base64 of the JSON for the identity and the shared addresses.
pub proof fn law_ticket_parts(
    root_hash: Seq<u8>,
    id: iroh::EndpointId,
    addrs: Seq<TransportAddress>,
)
    ensures
        split_at_first(ticket_text(root_hash, id, addrs), ':') == Some(
            (lower_hex(root_hash), base64_encoded(endpoint_json(id, shared_addresses(addrs)))),
        ),
{
    law_lower_hex_chars(root_hash);
    law_split_at_first(
        lower_hex(root_hash),
        ':',
        base64_encoded(endpoint_json(id, shared_addresses(addrs))),
    );
}

/// The addresses that a ticket gives are exactly the direct addresses of the
/// endpoint outside 127.0.0.0/8, 100.64.0.0/10, 172.16.0.0/12 and other than
/// `::1`.
pub proof fn law_ticket_gives_reachable_addresses(
    addrs: Seq<TransportAddress>,
    address: TransportAddress,
)
    ensures
        as_transports(shared_addresses(addrs)).to_set().contains(address) <==> addrs.contains(
            address,
        ) && match address {
            TransportAddress::Ip(SocketAddress::V4(v4)) => v4.octets@[0] != 127 && !(v4.octets@[0]
                == 100 && 64 <= v4.octets@[1] <= 127) && !(v4.octets@[0] == 172 && 16
                <= v4.octets@[1] <= 31),
            TransportAddress::Ip(SocketAddress::V6(v6)) => v6.segments@ != seq![
                0u16,
                0,
                0,
                0,
                0,
                0,
                0,
                1,
            ],
            _ => false,
        },
{
    let shared = shared_addresses(addrs);
    let transports = as_transports(shared);
    match address {
        TransportAddress::Ip(ip) => {
            law_shared_addresses_exact(addrs, ip);
            if let SocketAddress::V6(v6) = ip {
                law_ipv6_reachable_unless_loopback(v6);
            }
            if shared.contains(ip) {
                let i = choose|i: int| 0 <= i < shared.len() && shared[i] == ip;
                assert(transports[i] == address);
            }
            if transports.contains(address) {
                let i = choose|i: int| 0 <= i < transports.len() && transports[i] == address;
                assert(shared[i] == ip);
            }
        },
        _ => {
            if transports.contains(address) {
                let i = choose|i: int| 0 <= i < transports.len() && transports[i] == address;
                assert(transports[i] == TransportAddress::Ip(shared[i]));
            }
        },
    }
}

/// Tickets for different collections differ, whoever serves them.
pub proof fn law_ticket_tells_collections_apart(
    root_hash: Seq<u8>,
    id: iroh::EndpointId,
    addrs: Seq<TransportAddress>,
    other_hash: Seq<u8>,
    other_id: iroh::EndpointId,
    other_addrs: Seq<TransportAddress>,
)
    requires
        ticket_text(root_hash, id, addrs) == ticket_text(other_hash, other_id, other_addrs),
    ensures
        root_hash == other_hash,
{
    law_lower_hex_chars(root_hash);
    law_lower_hex_chars(other_hash);
    law_split_at_first(
        lower_hex(root_hash),
        ':',
        base64_encoded(endpoint_json(id, shared_addresses(addrs))),
    );
    law_split_at_first(
        lower_hex(other_hash),
        ':',
        base64_encoded(endpoint_json(other_id, shared_addresses(other_addrs))),
    );
    law_lower_hex_injective(root_hash, other_hash);
}

/// The sender side of a transfer.
#[derive(Clone, Copy, Debug, PartialEq, Eq)]
pub struct LocalSendProvider {
    /// The relay servers that the endpoint uses.
    pub relay: RelayChoice,
}

impl LocalSendProvider {
    /// Sets up the sender. Without relay servers it serves the local network
    /// only.
    pub fn new(use_relay: bool) -> (r: Self)
        ensures
            r.relay == if use_relay {
                RelayChoice::Public
            } else {
                RelayChoice::Disabled
            },
    {
        LocalSendProvider { relay: relay_choice(use_relay) }
    }

    /// What the import of a file yields: its hash in hexadecimal, which is
    /// read as the hash again, and its size. A blob that is not complete is an error.
    pub fn import_file(&self, hash: &[u8; 32], status: ImportStatus) -> (r: Result<
        (String, u64),
        ImportError,
    >)
        ensures
            match status {
                ImportStatus::Complete(size) => r matches Ok((hex, n)) && hex@ == lower_hex(hash@)
                    && hash_text_fits(hex@) && reads_as_hash(hex@, hash@) && n == size,
                ImportStatus::Other(text) => r == Err::<(String, u64), ImportError>(
                    ImportError::Incomplete(text),
                ),
            },
    {
        match status {
            ImportStatus::Complete(size) => {
                proof {
                    law_hash_length_fits(lower_hex(hash@));
                }
                Ok((hash_to_hex(hash), size))
            },
            ImportStatus::Other(text) => Err(ImportError::Incomplete(text)),
        }
    }

    /// What the import of `len` bytes yields: their hash in hexadecimal, which
    /// is read as the hash again, and their number.
    pub fn import_bytes(&self, hash: &[u8; 32], len: usize) -> (r: (String, u64))
        ensures
            r.0@ == lower_hex(hash@),
            hash_text_fits(r.0@),
            reads_as_hash(r.0@, hash@),
            r.1 == len,
    {
        proof {
            law_hash_length_fits(lower_hex(hash@));
        }
        (hash_to_hex(hash), len as u64)
    }

    /// The ticket for the collection with the hash `root_hash`, served by the
    /// endpoint at `full_addr`.
    ///
    /// Only direct addresses that a peer on the local network may reach go
    /// into the ticket. Reading the ticket gives the hash, the identity of the
    /// endpoint and exactly those addresses back. Unless there are very many
    /// addresses, the ticket is short enough to be read.
    pub fn create_ticket(&self, root_hash: &[u8; 32], full_addr: &EndpointAddress) -> (r: Result<
        String,
        TicketError,
    >)
        requires
            full_addr.addrs@.len() <= isize::MAX / 100,
        ensures
            r matches Ok(ticket) && ticket@ == ticket_text(
                root_hash@,
                full_addr.id,
                full_addr.addrs@,
            ),
            r matches Ok(ticket) ==> ticket@ == lower_hex(root_hash@) + seq![':'] + base64_encoded(
                endpoint_json(full_addr.id, shared_addresses(full_addr.addrs@)),
            ),
            r matches Ok(ticket) ==> (read_ticket(ticket@) matches Some((hash, addr)) && hash
                == root_hash@ && endpoint_id(addr) == full_addr.id && endpoint_transports(addr)
                == as_transports(shared_addresses(full_addr.addrs@)).to_set()),
            full_addr.addrs@.len() <= usize::MAX / 800 ==> (r matches Ok(ticket) && ticket_fits(
                ticket@,
            )),
    {
        let ips = pick_shared_addresses(&full_addr.addrs);
        let json = match endpoint_to_json(&full_addr.id, &ips) {
            Ok(json) => json,
            Err(error) => {
                return Err(TicketError::Address(error));
            },
        };
        let encoded = base64_encode(&json);
        let hex = hash_to_hex(root_hash);
        let ghost hex_text = hex@;
        let ticket = hex.concat(":").concat(encoded.as_str());
        proof {
            reveal_strlit(":");
            assert(":"@ =~= seq![':']);
            law_lower_hex_chars(root_hash@);
            law_hash_length_fits(hex_text);
            law_split_at_first(hex_text, ':', encoded@);
        }
        Ok(ticket)
    }
}

/// The import of a file yields its size and the text of its hash exactly where
/// the store has it complete; each two characters of the text are one byte of
/// the hash. Otherwise the error holds what the store said.
pub proof fn law_import_yields_hash_and_size(
    provider: &LocalSendProvider,
    hash: &[u8; 32],
    status: ImportStatus,
    r: Result<(String, u64), ImportError>,
    i: int,
)
    requires
        call_ensures(LocalSendProvider::import_file, (provider, hash, status), r),
        0 <= i < 32,
    ensures
        r is Ok <==> status is Complete,
        r matches Ok((hex, size)) ==> status == ImportStatus::Complete(size) && hex@.len() == 64
            && hash@[i] == 16 * hex_value(hex@[2 * i]) + hex_value(hex@[2 * i + 1]),
        r matches Err(error) ==> (error matches ImportError::Incomplete(text) && status
            == ImportStatus::Other(text)),
{
    law_lower_hex_reads_as_bytes(hash@, i);
}

/// The import of bytes yields their number and the text of their hash.
pub proof fn law_import_of_bytes_yields_hash_and_length(
    provider: &LocalSendProvider,
    hash: &[u8; 32],
    len: usize,
    r: (String, u64),
    i: int,
)
    requires
        call_ensures(LocalSendProvider::import_bytes, (provider, hash, len), r),
        0 <= i < 32,
    ensures
        r.1 == len,
        r.0@.len() == 64,
        hash@[i] == 16 * hex_value(r.0@[2 * i]) + hex_value(r.0@[2 * i + 1]),
{
    law_lower_hex_reads_as_bytes(hash@, i);
}

} // verus!
