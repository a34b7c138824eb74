//! The receiver side: reading a ticket, and finding the metadata and the files
//! in the collection behind it.

use vstd::prelude::*;

use crate::address::{EndpointAddress, SocketAddress, TransportAddress};
use crate::blob::{
    collection_blobs, entry_views, hash_from_str, law_entry_views_are_names_and_hashes,
    parsed_hash, BlobEntry,
};
use crate::collection::{
    build_collection, split_collection, ListedBlobs, LocalSendCollection, LocalSendFileMeta,
};
use crate::download::{DownloadSession, ReceiveError};
use crate::provider::{
    law_ticket_gives_reachable_addresses, law_ticket_tells_collections_apart, relay_choice,
    LocalSendProvider, RelayChoice,
};
use crate::text::{law_split_at_first, law_split_parts, split_at_first, split_once};
use crate::ticket::{
    base64_decode, base64_decoded, decoded_endpoint, endpoint_from_json, endpoint_id,
    endpoint_transports, read_ticket, ticket_fits, TicketError,
};

verus! {

/// Whether `s` has the form of a random UUID: 36 characters, hyphens after
/// the groups of 8, 4, 4 and 4, lower-case hexadecimal characters elsewhere,
/// with the marks of version 4.
pub open spec fn is_random_uuid(s: Seq<char>) -> bool {
    &&& s.len() == 36
    &&& forall|i: int|
        0 <= i < 36 ==> if i == 8 || i == 13 || i == 18 || i == 23 {
            #[trigger] s[i] == '-'
        } else {
            crate::blob::is_hex_char(s[i])
        }
    &&& s[14] == '4'
    &&& (s[19] == '8' || s[19] == '9' || s[19] == 'a' || s[19] == 'b')
}

/// Calls `uuid::Uuid::new_v4` and writes the identifier out in its
/// hyphenated form. Which one it is depends on chance. The call panics where
/// the system has no source of randomness.
#[verifier::external_body]
fn random_uuid() -> (r: String)
    ensures
        is_random_uuid(r@),
{
    uuid::Uuid::new_v4().to_string()
}

/// The name of the directory for the blob store of a session.
pub open spec fn session_dir(session: Seq<char>) -> Seq<char> {
    ".localsend-recv-"@ + session
}

/// Different sessions have different directories.
pub proof fn law_sessions_have_own_directories(session: Seq<char>, other: Seq<char>)
    requires
        session != other,
    ensures
        session_dir(session) != session_dir(other),
{
    let n = ".localsend-recv-"@.len() as int;
    assert(session_dir(session).skip(n) =~= session);
    assert(session_dir(other).skip(n) =~= other);
}

/// The name of a directory begins with a fixed text, and the rest is the session.
pub proof fn law_directory_names_session(session: Seq<char>)
    ensures
        ".localsend-recv-"@.is_prefix_of(session_dir(session)),
        session_dir(session).skip(".localsend-recv-"@.len() as int) == session,
{
    assert(session_dir(session).skip(".localsend-recv-"@.len() as int) =~= session);
}

/// Writes the name of the directory for the blob store of a session.
pub fn session_dir_name(session: &str) -> (r: String)
    ensures
        r@ == session_dir(session@),
        r@ == ".localsend-recv-"@ + session@,
{
    ".localsend-recv-".to_owned().concat(session)
}

/// The receiver side of a transfer.
#[derive(Clone, Debug, PartialEq, Eq)]
pub struct LocalSendReceiver {
    /// The relay servers that the endpoint uses.
    pub relay: RelayChoice,
    /// The name of the directory for the blob store, below the directory for
    /// temporary files.
    pub dir_name: String,
}

impl LocalSendReceiver {
    /// Sets up the receiver, with a fresh directory for its blob store.
    pub fn new(use_relay: bool) -> (r: Self)
        ensures
            r.relay == if use_relay {
                RelayChoice::Public
            } else {
                RelayChoice::Disabled
            },
            exists|session: Seq<char>| #[trigger]
                is_random_uuid(session) && r.dir_name@ == session_dir(session),
    {
        let session = random_uuid();
        LocalSendReceiver {
            relay: relay_choice(use_relay),
            dir_name: session_dir_name(session.as_str()),
        }
    }

    /// The two parts of a ticket: the text of the hash, and the address.
    pub fn split_ticket(ticket: &str) -> (r: Result<(&str, &str), TicketError>)
        ensures
            match r {
                Ok((hash_text, addr_text)) => split_at_first(ticket@, ':') == Some(
                    (hash_text@, addr_text@),
                ),
                Err(error) => error == TicketError::Format && !ticket@.contains(':'),
            },
            ticket@.contains(':') ==> r is Ok,
    {
        proof {
            ticket@.index_of_first_ensures(':');
        }
        match split_once(ticket, ':') {
            Some(parts) => Ok(parts),
            None => Err(TicketError::Format),
        }
    }

    /// Reads a ticket: the hash of the collection and the address of the
    /// sender.
    ///
    /// A text without a colon is refused for its format. Otherwise the part
    /// before the first colon must be a hash, then the part behind it base64,
    /// then its content the JSON of an endpoint address; the first that is not
    /// gives the error.
    pub fn parse_ticket(ticket: &str) -> (r: Result<([u8; 32], iroh::EndpointAddr), TicketError>)
        requires
            ticket_fits(ticket@),
        ensures
            match split_at_first(ticket@, ':') {
                None => r matches Err(TicketError::Format),
                Some((hash_text, addr_text)) => match parsed_hash(hash_text) {
                    Err(reason) => r matches Err(TicketError::Hash(text)) && text@ == reason,
                    Ok(hash) => match base64_decoded(addr_text) {
                        Err(error) => r matches Err(TicketError::Base64(e)) && e == error,
                        Ok(json) => match decoded_endpoint(json) {
                            Err(error) => r matches Err(TicketError::Address(e)) && e == error,
                            Ok(read) => r matches Ok((h, addr)) && h@ == hash && addr == read,
                        },
                    },
                },
            },
            !ticket@.contains(':') <==> r == Err::<([u8; 32], iroh::EndpointAddr), TicketError>(
                TicketError::Format,
            ),
            match r {
                Ok((h, addr)) => read_ticket(ticket@) == Some((h@, addr)),
                Err(_) => read_ticket(ticket@) is None,
            },
    {
        proof {
            ticket@.index_of_first_ensures(':');
        }
        let (hash_text, addr_text) = match Self::split_ticket(ticket) {
            Ok(parts) => parts,
            Err(error) => {
                return Err(error);
            },
        };
        let hash = match hash_from_str(hash_text) {
            Ok(hash) => hash,
            Err(reason) => {
                return Err(TicketError::Hash(reason));
            },
        };
        let json = match base64_decode(addr_text) {
            Ok(json) => json,
            Err(error) => {
                return Err(TicketError::Base64(error));
            },
        };
        match endpoint_from_json(&json) {
            Ok(addr) => Ok((hash, addr)),
            Err(error) => Err(TicketError::Address(error)),
        }
    }

    /// Finds the metadata and the files in the collection that was fetched.
    pub fn fetch_collection(collection: &iroh_blobs::format::collection::Collection) -> (r: Result<
        ListedBlobs,
        ReceiveError,
    >)
        ensures
            match r {
                Ok(parts) => {
                    &&& collection_blobs(*collection).len() > 0
                    &&& parts.meta_hash@ == collection_blobs(*collection)[0].1
                    &&& entry_views(parts.files@) == collection_blobs(*collection).skip(1)
                },
                Err(error) => collection_blobs(*collection).len() == 0 && error
                    == ReceiveError::EmptyCollection,
            },
    {
        match split_collection(collection) {
            Some(parts) => Ok(parts),
            None => Err(ReceiveError::EmptyCollection),
        }
    }

    /// Finds the metadata and the files in a collection whose files are to be
    /// exported; there must be at least one file.
    pub fn file_entries(collection: &iroh_blobs::format::collection::Collection) -> (r: Result<
        ListedBlobs,
        ReceiveError,
    >)
        ensures
            match r {
                Ok(parts) => {
                    &&& collection_blobs(*collection).len() >= 2
                    &&& parts.meta_hash@ == collection_blobs(*collection)[0].1
                    &&& entry_views(parts.files@) == collection_blobs(*collection).skip(1)
                },
                Err(error) => collection_blobs(*collection).len() < 2 && error
                    == ReceiveError::NoFileEntries,
            },
    {
        match split_collection(collection) {
            Some(parts) => {
                assert(entry_views(parts.files@).len() == parts.files@.len());
                if parts.files.len() == 0 {
                    Err(ReceiveError::NoFileEntries)
                } else {
                    Ok(parts)
                }
            },
            None => Err(ReceiveError::NoFileEntries),
        }
    }

    /// Starts to export the files with the given indices into the metadata,
    /// one after the other.
    pub fn download_files(
        collection: LocalSendCollection,
        entries: Vec<BlobEntry>,
        file_indices: Vec<usize>,
    ) -> (r: DownloadSession)
        ensures
            r.wf(),
            r.files == collection.files,
            r.entries == entries,
            r.indices == file_indices,
            r.next == 0,
            !r.exporting,
            r.written == 0,
            r.total == 0,
    {
        DownloadSession {
            files: collection.files,
            entries,
            indices: file_indices,
            next: 0,
            exporting: false,
            written: 0,
            total: 0,
        }
    }
}

/// Whatever its indices, a download starts with all of the metadata, all of the
/// entries and all of the indices that it was given, and with nothing exported.
pub proof fn law_download_starts_with_everything(
    collection: LocalSendCollection,
    entries: Vec<BlobEntry>,
    file_indices: Vec<usize>,
    r: DownloadSession,
)
    requires
        call_ensures(LocalSendReceiver::download_files, (collection, entries, file_indices), r),
    ensures
        r.files@ == collection.files@,
        r.entries@ == entries@,
        r.indices@ == file_indices@,
        r.next == 0,
        r.total == 0,
        r.written == 0,
        !r.exporting,
{
}

/// A ticket that was made for a collection and an endpoint is read as the hash
/// of that collection and the identity of that endpoint, with exactly its direct
/// addresses outside 127.0.0.0/8, 100.64.0.0/10, 172.16.0.0/12 and other than
/// `::1`.
pub proof fn law_created_ticket_is_parsed(
    provider: &LocalSendProvider,
    root_hash: &[u8; 32],
    full_addr: &EndpointAddress,
    made: Result<String, TicketError>,
    ticket: &str,
    r: Result<([u8; 32], iroh::EndpointAddr), TicketError>,
    address: TransportAddress,
)
    requires
        call_ensures(LocalSendProvider::create_ticket, (provider, root_hash, full_addr), made),
        made is Ok ==> ticket@ == made->Ok_0@,
        call_ensures(LocalSendReceiver::parse_ticket, (ticket,), r),
    ensures
        made is Ok,
        r matches Ok((hash, addr)) && hash@ == root_hash@ && endpoint_id(addr) == full_addr.id && (
        endpoint_transports(addr).contains(address) <==> full_addr.addrs@.contains(address)
            && match address {
            TransportAddress::Ip(SocketAddress::V4(v4)) => v4.octets@[0] != 127 && !(v4.octets@[0]
                == 100 && 64 <= v4.octets@[1] <= 127) && !(v4.octets@[0] == 172 && 16
                <= v4.octets@[1] <= 31),
            TransportAddress::Ip(SocketAddress::V6(v6)) => v6.segments@ != seq![
                0u16,
                0,
                0,
                0,
                0,
                0,
                0,
                1,
            ],
            _ => false,
        }),
{
    law_ticket_gives_reachable_addresses(full_addr.addrs@, address);
}

/// Two tickets for the same collection and the same addresses are the same, and
/// tickets for different collections differ.
pub proof fn law_tickets_equal_iff_collections_are(
    provider: &LocalSendProvider,
    root_hash: &[u8; 32],
    other_hash: &[u8; 32],
    full_addr: &EndpointAddress,
    made: Result<String, TicketError>,
    other: Result<String, TicketError>,
)
    requires
        call_ensures(LocalSendProvider::create_ticket, (provider, root_hash, full_addr), made),
        call_ensures(LocalSendProvider::create_ticket, (provider, other_hash, full_addr), other),
    ensures
        made is Ok,
        other is Ok,
        made->Ok_0@ == other->Ok_0@ <==> root_hash@ == other_hash@,
{
    if made->Ok_0@ == other->Ok_0@ {
        law_ticket_tells_collections_apart(
            root_hash@,
            full_addr.id,
            full_addr.addrs@,
            other_hash@,
            full_addr.id,
            full_addr.addrs@,
        );
    }
}

/// A text is refused as a ticket for its format exactly where it has no colon.
/// With a colon it is accepted exactly where the part before the first one is a
/// hash and the part behind it the base64 of the JSON of an address.
pub proof fn law_ticket_accepted_iff_parts_read(
    head: Seq<char>,
    tail: Seq<char>,
    ticket: &str,
    r: Result<([u8; 32], iroh::EndpointAddr), TicketError>,
)
    requires
        !head.contains(':'),
        ticket@ == head || ticket@ == head + seq![':'] + tail,
        call_ensures(LocalSendReceiver::parse_ticket, (ticket,), r),
    ensures
        r matches Err(TicketError::Format) <==> !ticket@.contains(':'),
        ticket@ == head + seq![':'] + tail ==> (r is Ok <==> parsed_hash(head) is Ok
            && base64_decoded(tail) is Ok && decoded_endpoint(base64_decoded(tail)->Ok_0) is Ok),
        ticket@ == head + seq![':'] + tail ==> (r matches Ok((hash, addr)) ==> hash@ == parsed_hash(
            head,
        )->Ok_0 && addr == decoded_endpoint(base64_decoded(tail)->Ok_0)->Ok_0),
{
    law_split_at_first(head, ':', tail);
    law_split_parts(ticket@, ':');
}

/// What a sender lists, a receiver finds: the hash of the metadata, and for each
/// file, in order, an entry with the text of its hash and the blob with that
/// hash. Only a collection without files has none to find.
pub proof fn law_listed_files_are_found(
    meta_hash: &[u8; 32],
    files: &Vec<LocalSendFileMeta>,
    collection: iroh_blobs::format::collection::Collection,
    r: Result<ListedBlobs, ReceiveError>,
    all: Result<ListedBlobs, ReceiveError>,
    i: int,
)
    requires
        call_ensures(
            build_collection,
            (meta_hash, files),
            Ok::<iroh_blobs::format::collection::Collection, String>(collection),
        ),
        call_ensures(LocalSendReceiver::file_entries, (&collection,), r),
        call_ensures(LocalSendReceiver::fetch_collection, (&collection,), all),
    ensures
        r is Ok <==> files@.len() > 0,
        r matches Err(error) ==> error is NoFileEntries,
        all is Ok,
        all->Ok_0.meta_hash@ == meta_hash@,
        all->Ok_0.files@.len() == files@.len(),
        0 <= i < files@.len() ==> all->Ok_0.files@[i].name@ == files@[i].hash@
            && all->Ok_0.files@[i].hash@ == parsed_hash(files@[i].hash@)->Ok_0,
        r matches Ok(parts) ==> parts.meta_hash@ == meta_hash@ && parts.files@.len()
            == files@.len(),
        r matches Ok(parts) && 0 <= i < files@.len() ==> r->Ok_0.files@[i].name@ == files@[i].hash@
            && r->Ok_0.files@[i].hash@ == parsed_hash(files@[i].hash@)->Ok_0,
{
    let blobs = collection_blobs(collection);
    law_entry_views_are_names_and_hashes(all->Ok_0.files@);
    assert(blobs.skip(1).len() == files@.len());
    if 0 <= i < files@.len() {
        assert(blobs[i + 1].0 == files@[i].hash@);
        assert(blobs.skip(1)[i] == blobs[i + 1]);
        assert(entry_views(all->Ok_0.files@)[i].0 == all->Ok_0.files@[i].name@);
    }
    if let Ok(parts) = r {
        law_entry_views_are_names_and_hashes(parts.files@);
        if 0 <= i < files@.len() {
            assert(entry_views(parts.files@)[i].0 == parts.files@[i].name@);
        }
    }
}

/// Relay servers are used exactly where they were asked for, by sender and
/// receiver alike.
pub proof fn law_relays_as_asked(
    use_relay: bool,
    provider: LocalSendProvider,
    receiver: LocalSendReceiver,
)
    requires
        call_ensures(LocalSendProvider::new, (use_relay,), provider),
        call_ensures(LocalSendReceiver::new, (use_relay,), receiver),
    ensures
        provider.relay is Public <==> use_relay,
        provider.relay is Disabled <==> !use_relay,
        receiver.relay is Public <==> use_relay,
        receiver.relay is Disabled <==> !use_relay,
{
}

} // verus!
