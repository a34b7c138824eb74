//! Blob hashes and the collections that list them.
//!
//! A hash is handled as its 32 raw bytes. Its text forms, and the collection
//! that maps names to hashes, belong to `iroh_blobs`.

use vstd::prelude::*;
use vstd::utf8::encode_utf8;

verus! {

/// The lower-case hexadecimal character for a value below sixteen.
pub open spec fn hex_char(d: nat) -> char {
    if d < 10 {
        crate::text::digit_char(d)
    } else if d == 10 {
        'a'
    } else if d == 11 {
        'b'
    } else if d == 12 {
        'c'
    } else if d == 13 {
        'd'
    } else if d == 14 {
        'e'
    } else {
        'f'
    }
}

/// Whether `c` is a lower-case hexadecimal character.
pub open spec fn is_hex_char(c: char) -> bool {
    '0' <= c <= '9' || 'a' <= c <= 'f'
}

/// The lower-case hexadecimal text of `bytes`, two characters for each byte,
/// the high half first.
pub open spec fn lower_hex(bytes: Seq<u8>) -> Seq<char> {
    Seq::new(
        2 * bytes.len(),
        |i: int|
            hex_char(
                if i % 2 == 0 {
                    (bytes[i / 2] / 16) as nat
                } else {
                    (bytes[i / 2] % 16) as nat
                },
            ),
    )
}

/// Whether `text` is the hexadecimal form of a hash: 64 lower-case
/// hexadecimal characters.
pub open spec fn is_hash_hex(text: Seq<char>) -> bool {
    text.len() == 64 && forall|i: int| 0 <= i < text.len() ==> is_hex_char(#[trigger] text[i])
}

/// Hexadecimal text has only hexadecimal characters, so no separator occurs
/// in it.
pub proof fn law_lower_hex_chars(bytes: Seq<u8>)
    ensures
        lower_hex(bytes).len() == 2 * bytes.len(),
        forall|i: int|
            0 <= i < lower_hex(bytes).len() ==> is_hex_char(#[trigger] lower_hex(bytes)[i]),
        !lower_hex(bytes).contains(':'),
{
}

/// The value of a hexadecimal character: its place among the digits, or ten more
/// than its place among the letters.
pub open spec fn hex_value(c: char) -> int {
    if '0' <= c <= '9' {
        c as int - '0' as int
    } else {
        c as int - 'a' as int + 10
    }
}

/// Each two characters of hexadecimal text are read as one byte, sixteen times
/// the first plus the second, in order.
pub proof fn law_lower_hex_reads_as_bytes(bytes: Seq<u8>, i: int)
    requires
        0 <= i < bytes.len(),
    ensures
        lower_hex(bytes).len() == 2 * bytes.len(),
        is_hex_char(lower_hex(bytes)[2 * i]),
        is_hex_char(lower_hex(bytes)[2 * i + 1]),
        bytes[i] == 16 * hex_value(lower_hex(bytes)[2 * i]) + hex_value(
            lower_hex(bytes)[2 * i + 1],
        ),
{
    assert((2 * i) / 2 == i && (2 * i) % 2 == 0);
    assert((2 * i + 1) / 2 == i && (2 * i + 1) % 2 == 1);
    lemma_hex_char_value((bytes[i] / 16) as nat);
    lemma_hex_char_value((bytes[i] % 16) as nat);
}

/// The hexadecimal character for a value has that value.
proof fn lemma_hex_char_value(d: nat)
    requires
        d < 16,
    ensures
        is_hex_char(hex_char(d)),
        hex_value(hex_char(d)) == d,
{
}

/// Two byte strings with the same hexadecimal text are the same.
pub proof fn law_lower_hex_injective(a: Seq<u8>, b: Seq<u8>)
    requires
        lower_hex(a) == lower_hex(b),
    ensures
        a == b,
{
    assert(lower_hex(a).len() == 2 * a.len() && lower_hex(b).len() == 2 * b.len());
    assert forall|i: int| 0 <= i < a.len() implies a[i] == b[i] by {
        assert((2 * i) / 2 == i && (2 * i) % 2 == 0);
        assert((2 * i + 1) / 2 == i && (2 * i + 1) % 2 == 1);
        assert(lower_hex(a)[2 * i] == hex_char((a[i] / 16) as nat));
        assert(lower_hex(b)[2 * i] == hex_char((b[i] / 16) as nat));
        assert(lower_hex(a)[2 * i + 1] == hex_char((a[i] % 16) as nat));
        assert(lower_hex(b)[2 * i + 1] == hex_char((b[i] % 16) as nat));
        lemma_hex_char_injective((a[i] / 16) as nat, (b[i] / 16) as nat);
        lemma_hex_char_injective((a[i] % 16) as nat, (b[i] % 16) as nat);
    }
    assert(a =~= b);
}

proof fn lemma_hex_char_injective(x: nat, y: nat)
    requires
        x < 16,
        y < 16,
        hex_char(x) == hex_char(y),
    ensures
        x == y,
{
}

/// The bytes of a hash that was read, or the text of the error.
pub open spec fn hash_result_view(r: Result<[u8; 32], String>) -> Result<Seq<u8>, Seq<char>> {
    match r {
        Ok(hash) => Ok(hash@),
        Err(error) => Err(error@),
    }
}

/// What was read keeps the bytes of the hash or the text of the error.
pub proof fn law_hash_result_keeps_content(r: Result<[u8; 32], String>)
    ensures
        hash_result_view(r) is Ok <==> r is Ok,
        r matches Ok(hash) ==> hash_result_view(r)->Ok_0 == hash@,
        r matches Err(error) ==> hash_result_view(r)->Err_0 == error@,
{
}

/// What `iroh_blobs::Hash` reads from a text: the 32 bytes of the hash, or
/// the text of its error.
pub uninterp spec fn parsed_hash(text: Seq<char>) -> Result<Seq<u8>, Seq<char>>;

/// Whether `text` is short enough to be read as a hash: its length in bits
/// must fit in a `usize`.
pub open spec fn hash_text_fits(text: Seq<char>) -> bool {
    encode_utf8(text).len() <= usize::MAX / 8
}

/// A character takes at most four bytes.
proof fn lemma_utf8_length(text: Seq<char>)
    ensures
        encode_utf8(text).len() <= 4 * text.len(),
    decreases text.len(),
{
    if text.len() > 0 {
        lemma_utf8_length(text.drop_first());
    }
}

/// A text of no more characters than a hash has in hexadecimal is short
/// enough to be read as a hash.
pub proof fn law_hash_length_fits(text: Seq<char>)
    requires
        text.len() <= 64,
    ensures
        hash_text_fits(text),
{
    lemma_utf8_length(text);
}

/// Calls `iroh_blobs::Hash::from_str`.
///
/// The result is named by `parsed_hash`. Beyond the name, three facts are
/// claimed: 64 lower-case hexadecimal characters are read as the hash that
/// they spell; any other text of 64 bytes is an error; and so is a text whose
/// length in bytes is neither 64 nor the 52 of the base32 form.
/// The error type cannot be named outside its crate, so it is handed on as
/// its text. A text whose length in bits does not fit in a `usize` makes the
/// length computation panic.
#[verifier::external_body]
pub(crate) fn hash_from_str(text: &str) -> (r: Result<[u8; 32], String>)
    requires
        hash_text_fits(text@),
    ensures
        hash_result_view(r) == parsed_hash(text@),
        is_hash_hex(text@) ==> r is Ok && lower_hex(r->Ok_0@) == text@,
        encode_utf8(text@).len() == 64 && !is_hash_hex(text@) ==> r is Err,
        encode_utf8(text@).len() != 64 && encode_utf8(text@).len() != 52 ==> r is Err,
{
    match text.parse::<iroh_blobs::Hash>() {
        Ok(hash) => Ok(*hash.as_bytes()),
        Err(error) => Err(error.to_string()),
    }
}

/// Whether `text` is read as the hash with the bytes `hash`.
pub open spec fn reads_as_hash(text: Seq<char>, hash: Seq<u8>) -> bool {
    match parsed_hash(text) {
        Ok(bytes) => bytes == hash,
        Err(_) => false,
    }
}

/// A text is read as at most one hash, the one that it was parsed to.
pub proof fn law_text_reads_as_one_hash(text: Seq<char>, hash: Seq<u8>)
    ensures
        reads_as_hash(text, hash) <==> parsed_hash(text) is Ok && parsed_hash(text)->Ok_0 == hash,
{
}

/// Calls `iroh_blobs::Hash::to_hex`: the lower-case hexadecimal text of the
/// 32 bytes, which is read as the same hash again.
#[verifier::external_body]
pub(crate) fn hash_to_hex(hash: &[u8; 32]) -> (r: String)
    ensures
        r@ == lower_hex(hash@),
        reads_as_hash(r@, hash@),
{
    iroh_blobs::Hash::from_bytes(*hash).to_hex()
}

/// One entry of a collection: a name and the hash of the blob it stands for.
#[derive(Clone, Debug, PartialEq, Eq)]
pub struct BlobEntry {
    /// Name of the blob.
    pub name: String,
    /// BLAKE3 hash of its content.
    pub hash: [u8; 32],
}

impl View for BlobEntry {
    type V = (Seq<char>, Seq<u8>);

    open spec fn view(&self) -> (Seq<char>, Seq<u8>) {
        (self.name@, self.hash@)
    }
}

/// The views of a list of entries.
pub open spec fn entry_views(entries: Seq<BlobEntry>) -> Seq<(Seq<char>, Seq<u8>)> {
    entries.map_values(|e: BlobEntry| e@)
}

/// The views of entries are their names and hashes, one for each and in order.
pub proof fn law_entry_views_are_names_and_hashes(entries: Seq<BlobEntry>)
    ensures
        entry_views(entries).len() == entries.len(),
        forall|i: int|
            0 <= i < entries.len() ==> (#[trigger] entry_views(entries)[i]).0 == entries[i].name@
                && entry_views(entries)[i].1 == entries[i].hash@,
{
}

/// `iroh_blobs::Hash`, of which collections are made.
#[verifier::external_type_specification]
#[verifier::external_body]
pub struct ExHash(iroh_blobs::Hash);

/// `iroh_blobs::format::collection::Collection`, an ordered list of named
/// hashes.
#[verifier::external_type_specification]
#[verifier::external_body]
pub struct ExCollection(iroh_blobs::format::collection::Collection);

/// The names and hashes that a collection lists, in order.
pub uninterp spec fn collection_blobs(
    collection: iroh_blobs::format::collection::Collection,
) -> Seq<(Seq<char>, Seq<u8>)>;

/// Calls `Collection::default`: an empty collection.
#[verifier::external_body]
pub(crate) fn collection_new() -> (r: iroh_blobs::format::collection::Collection)
    ensures
        collection_blobs(r) == Seq::<(Seq<char>, Seq<u8>)>::empty(),
{
    iroh_blobs::format::collection::Collection::default()
}

/// Calls `Collection::push`: the entry is added behind the others.
#[verifier::external_body]
pub(crate) fn collection_push(
    collection: &mut iroh_blobs::format::collection::Collection,
    name: String,
    hash: &[u8; 32],
)
    ensures
        collection_blobs(*final(collection)) == collection_blobs(*old(collection)).push(
            (name@, hash@),
        ),
{
    collection.push(name, iroh_blobs::Hash::from_bytes(*hash))
}

/// Calls `Collection::iter` and hands its entries out, in order.
#[verifier::external_body]
pub(crate) fn collection_entries(
    collection: &iroh_blobs::format::collection::Collection,
) -> (r: Vec<BlobEntry>)
    ensures
        entry_views(r@) == collection_blobs(*collection),
{
    collection.iter().map(
        |e| BlobEntry { name: e.0.clone(), hash: *e.1.as_bytes() },
    ).collect()
}

} // verus!
