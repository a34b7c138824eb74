//! What a sender offers: the metadata of the files, and the collection that
//! lists the metadata and the file contents as blobs.
//!
//! The first entry of a collection is the metadata; each further entry is the
//! content of one file, in the order of the metadata and named by its hash.

use vstd::prelude::*;

use crate::blob::{
    collection_blobs, collection_entries, collection_new, collection_push, entry_views,
    hash_from_str, hash_text_fits, parsed_hash, reads_as_hash, BlobEntry,
};

verus! {

/// Metadata for a single file in a LocalSend collection.
#[derive(Clone, Debug, PartialEq, Eq)]
pub struct LocalSendFileMeta {
    /// Original file name (e.g. "photo.jpg").
    pub file_name: String,
    /// File size in bytes.
    pub size: u64,
    /// MIME-style file type (e.g. "image", "video", "text").
    pub file_type: String,
    /// BLAKE3 hash of the file content (hex-encoded).
    pub hash: String,
    /// Optional file modification timestamp (millis since epoch).
    pub last_modified: Option<i64>,
}

/// The metadata envelope that tells the receiver what files are available,
/// their names, sizes, and hashes.
#[derive(Clone, Debug, PartialEq, Eq)]
pub struct LocalSendCollection {
    /// Human-readable sender alias.
    pub sender_alias: String,
    /// Sender's fingerprint for identity verification.
    pub sender_fingerprint: String,
    /// Protocol version.
    pub version: String,
    /// Files in this transfer.
    pub files: Vec<LocalSendFileMeta>,
}

/// The entries of a collection: the metadata first, then the file contents.
pub open spec fn listed(meta_hash: Seq<u8>, blobs: Seq<(Seq<char>, Seq<u8>)>) -> Seq<
    (Seq<char>, Seq<u8>),
> {
    seq![("collection.json"@, meta_hash)] + blobs
}

/// Whether every file of the metadata carries a readable hash.
pub open spec fn all_hashes_readable(files: Seq<LocalSendFileMeta>) -> bool {
    forall|i: int| 0 <= i < files.len() ==> (#[trigger] parsed_hash(files[i].hash@)) is Ok
}

/// The entries for the contents of `files`: each named by the hash in the
/// metadata, and standing for the blob with that hash.
pub open spec fn file_blobs(files: Seq<LocalSendFileMeta>) -> Seq<(Seq<char>, Seq<u8>)> {
    files.map_values(|f: LocalSendFileMeta| (f.hash@, parsed_hash(f.hash@)->Ok_0))
}

/// Makes the collection that lists the metadata and then `blobs`.
pub fn list_collection(meta_hash: &[u8; 32], blobs: Vec<BlobEntry>) -> (r:
    iroh_blobs::format::collection::Collection)
    ensures
        collection_blobs(r) == listed(meta_hash@, entry_views(blobs@)),
        collection_blobs(r).len() == blobs@.len() + 1,
        collection_blobs(r)[0].0 == "collection.json"@,
        collection_blobs(r)[0].1 == meta_hash@,
        forall|i: int|
            0 <= i < blobs@.len() ==> (#[trigger] collection_blobs(r)[i + 1]).0 == blobs@[i].name@
                && collection_blobs(r)[i + 1].1 == blobs@[i].hash@,
{
    let mut collection = collection_new();
    collection_push(&mut collection, "collection.json".to_owned(), meta_hash);
    let mut i: usize = 0;
    assert(collection_blobs(collection) =~= listed(meta_hash@, entry_views(blobs@.take(0))));
    while i < blobs.len()
        invariant
            i <= blobs.len(),
            collection_blobs(collection) == listed(meta_hash@, entry_views(blobs@.take(i as int))),
        decreases blobs.len() - i,
    {
        collection_push(&mut collection, blobs[i].name.clone(), &blobs[i].hash);
        i = i + 1;
        assert(collection_blobs(collection) =~= listed(
            meta_hash@,
            entry_views(blobs@.take(i as int)),
        ));
    }
    assert(blobs@.take(blobs@.len() as int) =~= blobs@);
    proof {
        assert forall|i: int| 0 <= i < blobs@.len() implies (#[trigger] collection_blobs(
            collection,
        )[i + 1]) == (blobs@[i].name@, blobs@[i].hash@) by {
            assert(collection_blobs(collection)[i + 1] == entry_views(blobs@)[i]);
        }
    }
    collection
}

/// Makes the collection for `files`, whose metadata blob has the hash
/// `meta_hash`. The first file whose hash cannot be read is an error, with
/// the reason as its text.
pub fn build_collection(meta_hash: &[u8; 32], files: &Vec<LocalSendFileMeta>) -> (r: Result<
    iroh_blobs::format::collection::Collection,
    String,
>)
    requires
        forall|i: int| 0 <= i < files@.len() ==> hash_text_fits((#[trigger] files@[i]).hash@),
    ensures
        r is Ok <==> all_hashes_readable(files@),
        r matches Ok(collection) ==> collection_blobs(collection) == listed(
            meta_hash@,
            file_blobs(files@),
        ),
        r is Ok <==> forall|i: int|
            0 <= i < files@.len() ==> (#[trigger] parsed_hash(files@[i].hash@)) is Ok,
        r matches Ok(collection) ==> collection_blobs(collection).len() == files@.len() + 1
            && collection_blobs(collection)[0].0 == "collection.json"@ && collection_blobs(
            collection,
        )[0].1 == meta_hash@,
        r matches Ok(collection) ==> forall|i: int|
            0 <= i < files@.len() ==> (#[trigger] collection_blobs(collection)[i + 1]).0
                == files@[i].hash@ && Ok::<Seq<u8>, Seq<char>>(
                collection_blobs(collection)[i + 1].1,
            ) == parsed_hash(files@[i].hash@),
        r matches Err(reason) ==> exists|i: int|
            0 <= i < files@.len() && #[trigger] parsed_hash(files@[i].hash@) == Err::<
                Seq<u8>,
                Seq<char>,
            >(reason@) && all_hashes_readable(files@.take(i)),
{
    let mut blobs: Vec<BlobEntry> = Vec::new();
    let mut i: usize = 0;
    while i < files.len()
        invariant
            i <= files.len(),
            forall|i: int| 0 <= i < files@.len() ==> hash_text_fits((#[trigger] files@[i]).hash@),
            all_hashes_readable(files@.take(i as int)),
            entry_views(blobs@) == file_blobs(files@.take(i as int)),
        decreases files.len() - i,
    {
        match hash_from_str(files[i].hash.as_str()) {
            Ok(hash) => {
                blobs.push(BlobEntry { name: files[i].hash.clone(), hash });
            },
            Err(reason) => {
                assert(parsed_hash(files@[i as int].hash@) is Err);
                return Err(reason);
            },
        }
        proof {
            let longer = files@.take(i + 1);
            assert forall|j: int| 0 <= j < longer.len() implies (#[trigger] parsed_hash(
                longer[j].hash@,
            )) is Ok by {
                if j < i {
                    assert(longer[j] == files@.take(i as int)[j]);
                }
            }
            assert(file_blobs(longer) =~= file_blobs(files@.take(i as int)).push(
                (files@[i as int].hash@, parsed_hash(files@[i as int].hash@)->Ok_0),
            ));
            assert(entry_views(blobs@) =~= file_blobs(longer));
        }
        i = i + 1;
    }
    assert(files@.take(files@.len() as int) =~= files@);
    proof {
        assert forall|i: int| 0 <= i < files@.len() implies (#[trigger] listed(
            meta_hash@,
            file_blobs(files@),
        )[i + 1]) == (files@[i].hash@, parsed_hash(files@[i].hash@)->Ok_0) && parsed_hash(
            files@[i].hash@,
        ) is Ok by {
            assert(parsed_hash(files@[i].hash@) is Ok);
            assert(listed(meta_hash@, file_blobs(files@))[i + 1] == file_blobs(files@)[i]);
        }
    }
    Ok(list_collection(meta_hash, blobs))
}

/// The entries of a collection, taken apart.
#[derive(Debug, PartialEq, Eq)]
pub struct ListedBlobs {
    /// The hash of the metadata blob.
    pub meta_hash: [u8; 32],
    /// The entries of the file contents.
    pub files: Vec<BlobEntry>,
}

/// Takes the entries of a collection apart; there is nothing to take apart
/// where there are none.
pub fn split_entries(entries: Vec<BlobEntry>) -> (r: Option<ListedBlobs>)
    ensures
        match r {
            Some(parts) => {
                &&& entries@.len() > 0
                &&& parts.meta_hash@ == entries@[0].hash@
                &&& parts.files@ == entries@.skip(1)
            },
            None => entries@.len() == 0,
        },
{
    let mut entries = entries;
    if entries.len() == 0 {
        return None;
    }
    let ghost all = entries@;
    let first = entries.remove(0);
    assert(entries@ =~= all.skip(1));
    Some(ListedBlobs { meta_hash: first.hash, files: entries })
}

/// Reads the entries of a collection and takes them apart.
pub fn split_collection(collection: &iroh_blobs::format::collection::Collection) -> (r: Option<
    ListedBlobs,
>)
    ensures
        match r {
            Some(parts) => {
                &&& collection_blobs(*collection).len() > 0
                &&& parts.meta_hash@ == collection_blobs(*collection)[0].1
                &&& entry_views(parts.files@) == collection_blobs(*collection).skip(1)
            },
            None => collection_blobs(*collection).len() == 0,
        },
{
    let entries = collection_entries(collection);
    let ghost all = entries@;
    let r = split_entries(entries);
    proof {
        assert(entry_views(all).len() == all.len());
        if r is Some {
            assert(entry_views(r->Some_0.files@) =~= collection_blobs(*collection).skip(1));
            assert(entry_views(all)[0] == all[0]@);
        }
    }
    r
}

/// A receiver takes apart what a sender listed: it finds the metadata under
/// the sender's hash, and as many file entries as there are files, each with
/// the hash from the metadata of the file at the same place.
pub proof fn law_split_undoes_listing(meta_hash: Seq<u8>, files: Seq<LocalSendFileMeta>)
    requires
        all_hashes_readable(files),
    ensures
        listed(meta_hash, file_blobs(files)).len() == 1 + files.len(),
        listed(meta_hash, file_blobs(files))[0] == ("collection.json"@, meta_hash),
        listed(meta_hash, file_blobs(files)).skip(1) == file_blobs(files),
        forall|i: int|
            0 <= i < files.len() ==> (#[trigger] listed(meta_hash, file_blobs(files)).skip(1)[i])
                == (files[i].hash@, parsed_hash(files[i].hash@)->Ok_0),
{
    assert(listed(meta_hash, file_blobs(files)).skip(1) =~= file_blobs(files));
}

/// Files whose metadata carries the hashes of imported blobs can be listed,
/// and the entries stand for those blobs, in the order of the files.
pub proof fn law_imported_files_can_be_listed(
    files: Seq<LocalSendFileMeta>,
    hashes: Seq<Seq<u8>>,
)
    requires
        files.len() == hashes.len(),
        forall|i: int|
            0 <= i < files.len() ==> #[trigger] reads_as_hash(files[i].hash@, hashes[i]),
    ensures
        all_hashes_readable(files),
        file_blobs(files).len() == hashes.len(),
        forall|i: int|
            0 <= i < files.len() ==> (#[trigger] file_blobs(files)[i]) == (
                files[i].hash@,
                hashes[i],
            ),
{
    assert forall|i: int| 0 <= i < files.len() implies (#[trigger] parsed_hash(
        files[i].hash@,
    )) is Ok by {
        assert(reads_as_hash(files[i].hash@, hashes[i]));
    }
    assert forall|i: int| 0 <= i < files.len() implies (#[trigger] file_blobs(files)[i]) == (
        files[i].hash@,
        hashes[i],
    ) by {
        assert(reads_as_hash(files[i].hash@, hashes[i]));
    }
}

/// Files can be listed exactly where the hash of each of them can be read.
pub proof fn law_listable_iff_each_hash_reads(files: Seq<LocalSendFileMeta>)
    ensures
        all_hashes_readable(files) <==> forall|i: int|
            #![trigger files[i]]
            0 <= i < files.len() ==> parsed_hash(files[i].hash@) is Ok,
{
    if all_hashes_readable(files) {
        assert forall|i: int|
            #![trigger files[i]]
            0 <= i < files.len() implies parsed_hash(files[i].hash@) is Ok by {
            assert(parsed_hash(files[i].hash@) is Ok);
        }
    }
}

/// Taking entries apart loses nothing: the first gives the hash of the metadata,
/// and the others follow in order.
pub proof fn law_split_keeps_entries(entries: Vec<BlobEntry>, r: Option<ListedBlobs>, i: int)
    requires
        call_ensures(split_entries, (entries,), r),
    ensures
        r is None <==> entries@.len() == 0,
        r matches Some(parts) ==> parts.meta_hash@ == entries@[0].hash@ && parts.files@.len() + 1
            == entries@.len() && (1 <= i < entries@.len() ==> parts.files@[i - 1] == entries@[i]),
{
}

} // verus!
