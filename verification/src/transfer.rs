//! A transfer as an application asks for it: the sender's self-description and
//! the indices of wanted files come as JSON, files are named by paths or by
//! `content://` URIs.

use vstd::prelude::*;
use vstd::string::*;

use crate::blob::{law_lower_hex_chars, law_lower_hex_injective, lower_hex};
use crate::collection::{LocalSendCollection, LocalSendFileMeta};
use crate::peer_resolver::{
    announced_peer, DiscoveredIrohPeer, IrohMulticastMessage, PeerResolver,
};
use crate::provider::ImportError;
use crate::text::{
    decimal, decimal_text, has_prefix, law_decimal_tells_numbers_apart, law_decimal_writes_number,
    law_split_at_first, number_value, split_at_first, writes_number,
};

verus! {

/// Why a request could not be understood.
#[derive(Debug)]
pub enum RequestError {
    /// The text is not the JSON that was expected.
    Json(serde_json::Error),
}

impl RequestError {
    /// The text of the error.
    pub fn message(&self) -> (r: String)
        ensures
            match *self {
                RequestError::Json(error) => to_string_from_display_ensures::<serde_json::Error>(
                    &error,
                    r,
                ),
            },
    {
        match self {
            RequestError::Json(error) => error.to_string(),
        }
    }
}

/// `serde_json::Value`, a JSON value of any kind. What counts here is what it
/// holds as an object.
#[verifier::external_type_specification]
#[verifier::external_body]
pub struct ExJsonValue(serde_json::Value);

/// The members of a JSON object whose values are strings. A value that is no
/// object has none.
pub uninterp spec fn text_members(value: serde_json::Value) -> Map<Seq<char>, Seq<char>>;

/// The members of a JSON object whose values are integers from 0 to
/// `u64::MAX`. A value that is no object has none.
pub uninterp spec fn unsigned_members(value: serde_json::Value) -> Map<Seq<char>, u64>;

/// The string members and the unsigned members of the JSON value that
/// `serde_json` reads from `text`, or its error.
pub uninterp spec fn json_members(text: Seq<char>) -> Result<
    (Map<Seq<char>, Seq<char>>, Map<Seq<char>, u64>),
    serde_json::Error,
>;

/// What the value that was read holds, or the error.
pub open spec fn value_result_view(r: Result<serde_json::Value, serde_json::Error>) -> Result<
    (Map<Seq<char>, Seq<char>>, Map<Seq<char>, u64>),
    serde_json::Error,
> {
    match r {
        Ok(value) => Ok((text_members(value), unsigned_members(value))),
        Err(error) => Err(error),
    }
}

/// Calls `serde_json::from_str` for a `serde_json::Value`. What the value
/// holds is named by `json_members`.
#[verifier::external_body]
fn json_from_str(text: &str) -> (r: Result<serde_json::Value, serde_json::Error>)
    ensures
        value_result_view(r) == json_members(text@),
{
    serde_json::from_str(text)
}

/// Indexes a `serde_json::Value` by a key and calls `Value::as_str`: the
/// string member with that key, nothing where there is none.
#[verifier::external_body]
fn json_text_member(value: &serde_json::Value, key: &str) -> (r: Option<String>)
    ensures
        text_view(r) == member(text_members(*value), key@),
{
    value[key].as_str().map(|s| s.to_string())
}

/// Indexes a `serde_json::Value` by a key and calls `Value::as_u64`: the
/// unsigned member with that key, nothing where there is none.
#[verifier::external_body]
fn json_unsigned_member(value: &serde_json::Value, key: &str) -> (r: Option<u64>)
    ensures
        r == member(unsigned_members(*value), key@),
{
    value[key].as_u64()
}

/// The indices that `serde_json` reads from `text` as a JSON array, on a
/// machine whose largest `usize` is `max`, or its error.
pub uninterp spec fn json_indices(text: Seq<char>, max: nat) -> Result<
    Seq<usize>,
    serde_json::Error,
>;

/// The indices that were read, or the error.
pub open spec fn indices_result_view(r: Result<Vec<usize>, serde_json::Error>) -> Result<
    Seq<usize>,
    serde_json::Error,
> {
    match r {
        Ok(indices) => Ok(indices@),
        Err(error) => Err(error),
    }
}

/// Calls `serde_json::from_str` for a `Vec<usize>`. The result is named by
/// `json_indices`.
#[verifier::external_body]
fn indices_from_str(text: &str) -> (r: Result<Vec<usize>, serde_json::Error>)
    ensures
        indices_result_view(r) == json_indices(text@, usize::MAX as nat),
{
    serde_json::from_str(text)
}

/// What a map holds under a key.
pub open spec fn member<V>(members: Map<Seq<char>, V>, key: Seq<char>) -> Option<V> {
    if members.contains_key(key) {
        Some(members[key])
    } else {
        None
    }
}

/// The view of an optional text.
pub open spec fn text_view(text: Option<String>) -> Option<Seq<char>> {
    match text {
        Some(text) => Some(text@),
        None => None,
    }
}

/// What was read from JSON keeps its members, its indices or its error.
pub proof fn law_json_results_keep_content(
    value: Result<serde_json::Value, serde_json::Error>,
    indices: Result<Vec<usize>, serde_json::Error>,
)
    ensures
        value_result_view(value) is Ok <==> value is Ok,
        value matches Ok(v) ==> value_result_view(value)->Ok_0.0 == text_members(v)
            && value_result_view(value)->Ok_0.1 == unsigned_members(v),
        value matches Err(error) ==> value_result_view(value)->Err_0 == error,
        indices_result_view(indices) is Ok <==> indices is Ok,
        indices matches Ok(v) ==> indices_result_view(indices)->Ok_0 == v@,
        indices matches Err(error) ==> indices_result_view(indices)->Err_0 == error,
{
}

/// A map holds something under a key exactly where it has the key, namely the
/// value there. An optional text is there exactly where its content is.
pub proof fn law_members_and_texts<V>(
    members: Map<Seq<char>, V>,
    key: Seq<char>,
    text: Option<String>,
)
    ensures
        member(members, key) is Some <==> members.contains_key(key),
        member(members, key) matches Some(value) ==> value == members[key],
        text_view(text) is Some <==> text is Some,
        text matches Some(t) ==> text_view(text) == Some(t@),
{
}

/// What an application says of the sender, as far as it says it.
#[derive(Clone, Debug, PartialEq, Eq)]
pub struct SenderFields {
    /// Display name.
    pub alias: Option<String>,
    /// Fingerprint for identity.
    pub fingerprint: Option<String>,
    /// Protocol version.
    pub version: Option<String>,
    /// HTTP port.
    pub port: Option<u64>,
    /// "http" or "https".
    pub protocol: Option<String>,
    /// Device model.
    pub device_model: Option<String>,
    /// Device type.
    pub device_type: Option<String>,
}

/// The content of `SenderFields`.
pub struct SenderFieldsView {
    /// Display name.
    pub alias: Option<Seq<char>>,
    /// Fingerprint for identity.
    pub fingerprint: Option<Seq<char>>,
    /// Protocol version.
    pub version: Option<Seq<char>>,
    /// HTTP port.
    pub port: Option<u64>,
    /// "http" or "https".
    pub protocol: Option<Seq<char>>,
    /// Device model.
    pub device_model: Option<Seq<char>>,
    /// Device type.
    pub device_type: Option<Seq<char>>,
}

impl View for SenderFields {
    type V = SenderFieldsView;

    open spec fn view(&self) -> SenderFieldsView {
        SenderFieldsView {
            alias: text_view(self.alias),
            fingerprint: text_view(self.fingerprint),
            version: text_view(self.version),
            port: self.port,
            protocol: text_view(self.protocol),
            device_model: text_view(self.device_model),
            device_type: text_view(self.device_type),
        }
    }
}

/// The sender of a transfer.
#[derive(Clone, Debug, PartialEq, Eq)]
pub struct SenderInfo {
    /// Display name.
    pub alias: String,
    /// Fingerprint for identity.
    pub fingerprint: String,
    /// Protocol version.
    pub version: String,
    /// HTTP port.
    pub port: u16,
    /// "http" or "https".
    pub protocol: Option<String>,
    /// Device model.
    pub device_model: Option<String>,
    /// Device type.
    pub device_type: Option<String>,
}

/// The content of `SenderInfo`.
pub struct SenderInfoView {
    /// Display name.
    pub alias: Seq<char>,
    /// Fingerprint for identity.
    pub fingerprint: Seq<char>,
    /// Protocol version.
    pub version: Seq<char>,
    /// HTTP port.
    pub port: u16,
    /// "http" or "https".
    pub protocol: Option<Seq<char>>,
    /// Device model.
    pub device_model: Option<Seq<char>>,
    /// Device type.
    pub device_type: Option<Seq<char>>,
}

impl View for SenderInfo {
    type V = SenderInfoView;

    open spec fn view(&self) -> SenderInfoView {
        SenderInfoView {
            alias: self.alias@,
            fingerprint: self.fingerprint@,
            version: self.version@,
            port: self.port,
            protocol: text_view(self.protocol),
            device_model: text_view(self.device_model),
            device_type: text_view(self.device_type),
        }
    }
}

/// The text, or an empty one in its place.
pub open spec fn or_empty(text: Option<Seq<char>>) -> Seq<char> {
    match text {
        Some(text) => text,
        None => Seq::empty(),
    }
}

/// The port that is announced: the low sixteen bits of the one that was given,
/// and the default one where none was.
pub open spec fn announced_port(port: Option<u64>) -> u16 {
    match port {
        Some(n) => (n % 0x1_0000) as u16,
        None => 53317,
    }
}

/// The fields as the members of a JSON object with their names.
pub open spec fn member_fields(
    texts: Map<Seq<char>, Seq<char>>,
    numbers: Map<Seq<char>, u64>,
) -> SenderFieldsView {
    SenderFieldsView {
        alias: member(texts, "alias"@),
        fingerprint: member(texts, "fingerprint"@),
        version: member(texts, "version"@),
        port: member(numbers, "port"@),
        protocol: member(texts, "protocol"@),
        device_model: member(texts, "deviceModel"@),
        device_type: member(texts, "deviceType"@),
    }
}

/// The sender that the fields describe: what is not said is empty, absent, or
/// for the port the default.
pub open spec fn described_sender(fields: SenderFieldsView) -> SenderInfoView {
    SenderInfoView {
        alias: or_empty(fields.alias),
        fingerprint: or_empty(fields.fingerprint),
        version: or_empty(fields.version),
        port: announced_port(fields.port),
        protocol: fields.protocol,
        device_model: fields.device_model,
        device_type: fields.device_type,
    }
}

/// What is said of a sender stays as it is. A name, fingerprint or version that
/// is not said is empty, and a port that is not said is the default one. A port
/// that was given and the one announced differ by a multiple of 65536.
pub proof fn law_sender_fills_in_fields(fields: SenderFieldsView)
    ensures
        fields.alias matches Some(text) ==> described_sender(fields).alias == text,
        fields.alias is None ==> described_sender(fields).alias.len() == 0,
        fields.fingerprint matches Some(text) ==> described_sender(fields).fingerprint == text,
        fields.fingerprint is None ==> described_sender(fields).fingerprint.len() == 0,
        fields.version matches Some(text) ==> described_sender(fields).version == text,
        fields.version is None ==> described_sender(fields).version.len() == 0,
        fields.port matches Some(n) ==> (n - described_sender(fields).port) % 0x1_0000 == 0,
        fields.port matches Some(n) ==> (n < 0x1_0000 ==> described_sender(fields).port == n),
        fields.port is None ==> described_sender(fields).port == 53317,
        described_sender(fields).protocol == fields.protocol,
        described_sender(fields).device_model == fields.device_model,
        described_sender(fields).device_type == fields.device_type,
{
    if let Some(n) = fields.port {
        let low = n % 0x1_0000;
        assert(low as u16 as int == low);
        assert((n - low) % 0x1_0000 == 0) by (nonlinear_arith)
            requires
                low == n % 0x1_0000,
        ;
    }
}

/// Each field of a sender is the member of the JSON object with its name, and
/// absent where the object has no such member, whatever the other members are.
pub proof fn law_fields_are_members(
    texts: Map<Seq<char>, Seq<char>>,
    numbers: Map<Seq<char>, u64>,
)
    ensures
        member_fields(texts, numbers).alias is Some <==> texts.contains_key("alias"@),
        member_fields(texts, numbers).alias matches Some(text) ==> text == texts["alias"@],
        member_fields(texts, numbers).fingerprint is Some <==> texts.contains_key("fingerprint"@),
        member_fields(texts, numbers).fingerprint matches Some(text) ==> text
            == texts["fingerprint"@],
        member_fields(texts, numbers).version is Some <==> texts.contains_key("version"@),
        member_fields(texts, numbers).version matches Some(text) ==> text == texts["version"@],
        member_fields(texts, numbers).port is Some <==> numbers.contains_key("port"@),
        member_fields(texts, numbers).port matches Some(n) ==> n == numbers["port"@],
        member_fields(texts, numbers).protocol is Some <==> texts.contains_key("protocol"@),
        member_fields(texts, numbers).protocol matches Some(text) ==> text == texts["protocol"@],
        member_fields(texts, numbers).device_model is Some <==> texts.contains_key("deviceModel"@),
        member_fields(texts, numbers).device_model matches Some(text) ==> text
            == texts["deviceModel"@],
        member_fields(texts, numbers).device_type is Some <==> texts.contains_key("deviceType"@),
        member_fields(texts, numbers).device_type matches Some(text) ==> text
            == texts["deviceType"@],
{
}

/// The content of a sender's fields is the content of each of them.
pub proof fn law_content_of_fields(fields: SenderFields)
    ensures
        fields@.alias is Some <==> fields.alias is Some,
        fields.alias matches Some(text) ==> fields@.alias == Some(text@),
        fields@.fingerprint is Some <==> fields.fingerprint is Some,
        fields.fingerprint matches Some(text) ==> fields@.fingerprint == Some(text@),
        fields@.version is Some <==> fields.version is Some,
        fields.version matches Some(text) ==> fields@.version == Some(text@),
        fields@.port == fields.port,
        fields@.protocol is Some <==> fields.protocol is Some,
        fields.protocol matches Some(text) ==> fields@.protocol == Some(text@),
        fields@.device_model is Some <==> fields.device_model is Some,
        fields.device_model matches Some(text) ==> fields@.device_model == Some(text@),
        fields@.device_type is Some <==> fields.device_type is Some,
        fields.device_type matches Some(text) ==> fields@.device_type == Some(text@),
{
}

/// The content of a sender is the content of each of its fields.
pub proof fn law_content_of_sender(info: SenderInfo)
    ensures
        info@.alias == info.alias@,
        info@.fingerprint == info.fingerprint@,
        info@.version == info.version@,
        info@.port == info.port,
        info@.protocol is Some <==> info.protocol is Some,
        info.protocol matches Some(text) ==> info@.protocol == Some(text@),
        info@.device_model is Some <==> info.device_model is Some,
        info.device_model matches Some(text) ==> info@.device_model == Some(text@),
        info@.device_type is Some <==> info.device_type is Some,
        info.device_type matches Some(text) ==> info@.device_type == Some(text@),
{
}

/// The text, or an empty one where there is none.
fn text_or_empty(text: Option<String>) -> (r: String)
    ensures
        r@ == or_empty(text_view(text)),
{
    match text {
        Some(text) => text,
        None => String::new(),
    }
}

/// A copy of an optional text.
fn copy_text(text: &Option<String>) -> (r: Option<String>)
    ensures
        r == *text,
{
    match text {
        Some(text) => Some(text.clone()),
        None => None,
    }
}

/// Fills in what an application did not say of the sender.
pub fn sender_info(fields: SenderFields) -> (r: SenderInfo)
    ensures
        r@ == described_sender(fields@),
        r.alias@ == (match fields.alias {
            Some(text) => text@,
            None => Seq::<char>::empty(),
        }),
        r.fingerprint@ == (match fields.fingerprint {
            Some(text) => text@,
            None => Seq::<char>::empty(),
        }),
        r.version@ == (match fields.version {
            Some(text) => text@,
            None => Seq::<char>::empty(),
        }),
        fields.port matches Some(n) ==> (n - r.port) % 0x1_0000 == 0,
        fields.port is None ==> r.port == 53317,
        r.protocol == fields.protocol,
        r.device_model == fields.device_model,
        r.device_type == fields.device_type,
{
    proof {
        law_sender_fills_in_fields(fields@);
    }
    let port: u16 = match fields.port {
        Some(n) => (n % 0x1_0000) as u16,
        None => 53317,
    };
    SenderInfo {
        alias: text_or_empty(fields.alias),
        fingerprint: text_or_empty(fields.fingerprint),
        version: text_or_empty(fields.version),
        port,
        protocol: fields.protocol,
        device_model: fields.device_model,
        device_type: fields.device_type,
    }
}

/// Reads what an application says of the sender. Only text that is not JSON
/// is an error.
pub fn parse_sender_fields(json: &str) -> (r: Result<SenderFields, RequestError>)
    ensures
        match json_members(json@) {
            Ok((texts, numbers)) => r matches Ok(fields) && fields@ == member_fields(
                texts,
                numbers,
            ),
            Err(error) => r matches Err(RequestError::Json(e)) && e == error,
        },
{
    let value = match json_from_str(json) {
        Ok(value) => value,
        Err(error) => {
            return Err(RequestError::Json(error));
        },
    };
    Ok(
        SenderFields {
            alias: json_text_member(&value, "alias"),
            fingerprint: json_text_member(&value, "fingerprint"),
            version: json_text_member(&value, "version"),
            port: json_unsigned_member(&value, "port"),
            protocol: json_text_member(&value, "protocol"),
            device_model: json_text_member(&value, "deviceModel"),
            device_type: json_text_member(&value, "deviceType"),
        },
    )
}

/// Reads the description of the sender and fills in what it does not say.
pub fn parse_sender_info(json: &str) -> (r: Result<SenderInfo, RequestError>)
    ensures
        match json_members(json@) {
            Ok((texts, numbers)) => r matches Ok(info) && info@ == described_sender(
                member_fields(texts, numbers),
            ),
            Err(error) => r matches Err(RequestError::Json(e)) && e == error,
        },
        json_members(json@) matches Ok((texts, numbers)) ==> {
            &&& r is Ok
            &&& r->Ok_0.alias@ == if texts.contains_key("alias"@) {
                texts["alias"@]
            } else {
                Seq::<char>::empty()
            }
            &&& r->Ok_0.fingerprint@ == if texts.contains_key("fingerprint"@) {
                texts["fingerprint"@]
            } else {
                Seq::<char>::empty()
            }
            &&& r->Ok_0.version@ == if texts.contains_key("version"@) {
                texts["version"@]
            } else {
                Seq::<char>::empty()
            }
            &&& numbers.contains_key("port"@) ==> (numbers["port"@] - r->Ok_0.port) % 0x1_0000 == 0
            &&& !numbers.contains_key("port"@) ==> r->Ok_0.port == 53317
            &&& r->Ok_0.protocol is Some <==> texts.contains_key("protocol"@)
            &&& r->Ok_0.protocol matches Some(text) ==> text@ == texts["protocol"@]
            &&& r->Ok_0.device_model is Some <==> texts.contains_key("deviceModel"@)
            &&& r->Ok_0.device_model matches Some(text) ==> text@ == texts["deviceModel"@]
            &&& r->Ok_0.device_type is Some <==> texts.contains_key("deviceType"@)
            &&& r->Ok_0.device_type matches Some(text) ==> text@ == texts["deviceType"@]
        },
{
    proof {
        if let Ok((texts, numbers)) = json_members(json@) {
            law_sender_fills_in_fields(member_fields(texts, numbers));
        }
    }
    match parse_sender_fields(json) {
        Ok(fields) => Ok(sender_info(fields)),
        Err(error) => Err(error),
    }
}

/// Reads the indices of the files that a receiver wants.
pub fn parse_file_indices(json: &str) -> (r: Result<Vec<usize>, RequestError>)
    ensures
        match json_indices(json@, usize::MAX as nat) {
            Ok(indices) => r matches Ok(v) && v@ == indices,
            Err(error) => r matches Err(RequestError::Json(e)) && e == error,
        },
{
    match indices_from_str(json) {
        Ok(indices) => Ok(indices),
        Err(error) => Err(RequestError::Json(error)),
    }
}

/// The delays, in milliseconds, of the burst in which a ticket is announced.
pub fn announce_delays_millis() -> (r: Vec<u64>)
    ensures
        r@ == seq![100u64, 500, 2000],
{
    let r: Vec<u64> = vec![100, 500, 2000];
    assert(r@ =~= seq![100u64, 500, 2000]);
    r
}

impl SenderInfo {
    /// The collection in which the sender offers `files`.
    pub fn collection(&self, files: Vec<LocalSendFileMeta>) -> (r: LocalSendCollection)
        ensures
            r.sender_alias == self.alias,
            r.sender_fingerprint == self.fingerprint,
            r.version == self.version,
            r.files == files,
    {
        LocalSendCollection {
            sender_alias: self.alias.clone(),
            sender_fingerprint: self.fingerprint.clone(),
            version: self.version.clone(),
            files,
        }
    }

    /// The message that announces `ticket` as one of this sender.
    pub open spec fn is_announcement(self, ticket: Seq<char>, message: IrohMulticastMessage) -> bool {
        &&& message.alias == self.alias
        &&& message.fingerprint == self.fingerprint
        &&& message.version == self.version
        &&& message.device_model == self.device_model
        &&& message.device_type == self.device_type
        &&& message.port == self.port
        &&& message.protocol == self.protocol
        &&& message.announce
        &&& text_view(message.iroh_ticket) == Some(ticket)
    }

    /// The message that announces `ticket`.
    pub fn announcement(&self, ticket: &str) -> (r: IrohMulticastMessage)
        ensures
            self.is_announcement(ticket@, r),
            r.alias == self.alias,
            r.fingerprint == self.fingerprint,
            r.version == self.version,
            r.device_model == self.device_model,
            r.device_type == self.device_type,
            r.port == self.port,
            r.protocol == self.protocol,
            r.announce,
            r.iroh_ticket is Some,
            r.iroh_ticket->Some_0@ == ticket@,
    {
        IrohMulticastMessage {
            alias: self.alias.clone(),
            fingerprint: self.fingerprint.clone(),
            version: self.version.clone(),
            device_model: copy_text(&self.device_model),
            device_type: copy_text(&self.device_type),
            port: self.port,
            protocol: copy_text(&self.protocol),
            announce: true,
            iroh_ticket: Some(ticket.to_owned()),
        }
    }
}

/// What a sender announces, every receiver with another fingerprint discovers,
/// with the ticket and with the name, the fingerprint, the version, the device
/// model and the device type of the sender; the sender itself does not. The
/// message also has the port and the protocol of the sender.
pub proof fn law_announcement_is_discovered(
    info: SenderInfo,
    ticket: Seq<char>,
    message: IrohMulticastMessage,
    source_ip: String,
    own_fingerprint: Seq<char>,
)
    requires
        info.is_announcement(ticket, message),
    ensures
        own_fingerprint != info.fingerprint@ ==> (announced_peer(
            Some(message),
            source_ip,
            own_fingerprint,
        ) matches Some(peer) && peer.iroh_ticket@ == ticket && peer.alias == info.alias
            && peer.fingerprint == info.fingerprint && peer.version == info.version
            && peer.device_model == info.device_model && peer.device_type == info.device_type
            && peer.source_ip == source_ip),
        own_fingerprint == info.fingerprint@ ==> announced_peer(
            Some(message),
            source_ip,
            own_fingerprint,
        ) is None,
        message.port == info.port,
        message.protocol == info.protocol,
        message.announce,
{
}

/// A message announces a ticket for a sender where it has the fields of the
/// sender and the ticket, and is an announcement.
pub proof fn law_message_with_sender_fields_announces(
    info: SenderInfo,
    message: IrohMulticastMessage,
)
    requires
        message.alias == info.alias,
        message.fingerprint == info.fingerprint,
        message.version == info.version,
        message.device_model == info.device_model,
        message.device_type == info.device_type,
        message.port == info.port,
        message.protocol == info.protocol,
        message.announce,
        message.iroh_ticket is Some,
    ensures
        info.is_announcement(message.iroh_ticket->Some_0@, message),
{
}

/// How a file is to be imported.
#[derive(Clone, Copy, Debug, PartialEq, Eq)]
pub enum ImportRoute {
    /// From the file descriptor behind a `content://` URI.
    ContentUri,
    /// From the file at a path.
    File,
}

/// Decides how a file is to be imported. `content://` URIs exist on Android
/// only.
pub fn import_route(file_path: &str, on_android: bool) -> (r: Result<ImportRoute, ImportError>)
    ensures
        r == if "content://"@.is_prefix_of(file_path@) {
            if on_android {
                Ok::<ImportRoute, ImportError>(ImportRoute::ContentUri)
            } else {
                Err(ImportError::ContentUri)
            }
        } else {
            Ok(ImportRoute::File)
        },
{
    if has_prefix(file_path, "content://") {
        if on_android {
            Ok(ImportRoute::ContentUri)
        } else {
            Err(ImportError::ContentUri)
        }
    } else {
        Ok(ImportRoute::File)
    }
}

/// What is reported of an import: the hash and the size, separated by a colon.
pub open spec fn import_report(hash_hex: Seq<char>, size: nat) -> Seq<char> {
    hash_hex + seq![':'] + decimal(size)
}

/// Writes what is reported of an import.
pub fn import_summary(hash_hex: &str, size: u64) -> (r: String)
    ensures
        r@ == import_report(hash_hex@, size as nat),
        (hash_hex@ + seq![':']).is_prefix_of(r@),
        writes_number(r@.skip(hash_hex@.len() as int + 1), size as int),
{
    proof {
        reveal_strlit(":");
        assert(":"@ =~= seq![':']);
        law_decimal_writes_number(size as nat);
        assert(import_report(hash_hex@, size as nat).skip(hash_hex@.len() as int + 1) =~= decimal(
            size as nat,
        ));
    }
    hash_hex.to_owned().concat(":").concat(decimal_text(size).as_str())
}

/// The report of an import splits at its first colon into the hash and the
/// size.
pub proof fn law_import_report_splits(hash: Seq<u8>, size: nat)
    ensures
        split_at_first(import_report(lower_hex(hash), size), ':') == Some(
            (lower_hex(hash), decimal(size)),
        ),
{
    law_lower_hex_chars(hash);
    law_split_at_first(lower_hex(hash), ':', decimal(size));
}

/// What stands behind the first colon of the report of an import, read as a
/// decimal number, is the size; what stands before it is the text of the hash.
pub proof fn law_import_report_reads_back(hash_hex: Seq<char>, size: nat)
    requires
        !hash_hex.contains(':'),
    ensures
        split_at_first(import_report(hash_hex, size), ':') matches Some((head, tail)) && head
            == hash_hex && writes_number(tail, size as int) && number_value(tail) == size,
{
    law_split_at_first(hash_hex, ':', decimal(size));
    law_decimal_writes_number(size);
}

/// Imports of different files have different reports, and so have imports of
/// different sizes.
pub proof fn law_import_reports_differ(hash: Seq<u8>, size: nat, other: Seq<u8>, other_size: nat)
    requires
        import_report(lower_hex(hash), size) == import_report(lower_hex(other), other_size),
    ensures
        hash == other,
        size == other_size,
{
    law_import_report_splits(hash, size);
    law_import_report_splits(other, other_size);
    law_lower_hex_injective(hash, other);
    law_decimal_tells_numbers_apart(size, other_size);
}

/// A path is imported as a `content://` URI exactly where it begins so and the
/// platform has such URIs, and is refused where the platform has none. Any other
/// path is imported as a file on every platform.
pub proof fn law_import_route_by_prefix(
    file_path: &str,
    on_android: bool,
    r: Result<ImportRoute, ImportError>,
)
    requires
        call_ensures(import_route, (file_path, on_android), r),
    ensures
        r is Err <==> file_path@.take(10) == "content://"@ && file_path@.len() >= 10 && !on_android,
        r matches Err(error) ==> error is ContentUri,
        r matches Ok(route) ==> (route is ContentUri <==> file_path@.take(10) == "content://"@
            && file_path@.len() >= 10 && on_android),
{
    reveal_strlit("content://");
    let prefix = "content://"@;
    assert(prefix.len() == 10);
    if prefix.is_prefix_of(file_path@) {
        assert(file_path@.take(10) =~= prefix);
    }
}

/// What a sender announces as a message, a receiver that gets the message
/// discovers: nobody where the fingerprint is its own, and otherwise the sender,
/// with every field that both have, the ticket, and the address that the message
/// came from.
pub proof fn law_announced_then_discovered(
    info: &SenderInfo,
    ticket: &str,
    message: IrohMulticastMessage,
    source_ip: String,
    own_fingerprint: &str,
    r: Option<DiscoveredIrohPeer>,
)
    requires
        call_ensures(SenderInfo::announcement, (info, ticket), message),
        call_ensures(
            PeerResolver::parse_message,
            (Some(message), source_ip, own_fingerprint),
            r,
        ),
    ensures
        r is Some <==> info.fingerprint@ != own_fingerprint@,
        r matches Some(peer) ==> peer.alias@ == info.alias@ && peer.fingerprint@
            == info.fingerprint@ && peer.version@ == info.version@ && peer.device_model
            == info.device_model && peer.device_type == info.device_type && peer.iroh_ticket@
            == ticket@ && peer.source_ip@ == source_ip@,
        message.port == info.port,
        message.protocol == info.protocol,
        message.announce,
{
}

/// The collection of a sender has the name, the fingerprint and the version of
/// the sender, and the files that were given, in their order.
pub proof fn law_collection_of_sender(
    info: &SenderInfo,
    files: Vec<LocalSendFileMeta>,
    r: LocalSendCollection,
)
    requires
        call_ensures(SenderInfo::collection, (info, files), r),
    ensures
        r.sender_alias@ == info.alias@,
        r.sender_fingerprint@ == info.fingerprint@,
        r.version@ == info.version@,
        r.files@ == files@,
{
}

/// A description of a sender that says a field gives that field; the others are
/// empty, absent, or for the port the default. Only text that is not JSON is
/// refused.
pub proof fn law_sender_read_from_members(
    json: &str,
    r: Result<SenderInfo, RequestError>,
    texts: Map<Seq<char>, Seq<char>>,
    numbers: Map<Seq<char>, u64>,
)
    requires
        call_ensures(parse_sender_info, (json,), r),
    ensures
        r is Ok <==> json_members(json@) is Ok,
        json_members(json@) == Ok::<
            (Map<Seq<char>, Seq<char>>, Map<Seq<char>, u64>),
            serde_json::Error,
        >((texts, numbers)) ==> {
            &&& texts.contains_key("alias"@) ==> r->Ok_0.alias@ == texts["alias"@]
            &&& !texts.contains_key("alias"@) ==> r->Ok_0.alias@.len() == 0
            &&& texts.contains_key("fingerprint"@) ==> r->Ok_0.fingerprint@ == texts["fingerprint"@]
            &&& !texts.contains_key("fingerprint"@) ==> r->Ok_0.fingerprint@.len() == 0
            &&& texts.contains_key("version"@) ==> r->Ok_0.version@ == texts["version"@]
            &&& !texts.contains_key("version"@) ==> r->Ok_0.version@.len() == 0
            &&& numbers.contains_key("port"@) && numbers["port"@] < 0x1_0000 ==> r->Ok_0.port
                == numbers["port"@]
            &&& numbers.contains_key("port"@) ==> (numbers["port"@] - r->Ok_0.port) % 0x1_0000 == 0
            &&& !numbers.contains_key("port"@) ==> r->Ok_0.port == 53317
            &&& texts.contains_key("protocol"@) <==> r->Ok_0.protocol is Some
            &&& texts.contains_key("protocol"@) ==> r->Ok_0.protocol->Some_0@ == texts["protocol"@]
            &&& texts.contains_key("deviceModel"@) <==> r->Ok_0.device_model is Some
            &&& texts.contains_key("deviceModel"@) ==> r->Ok_0.device_model->Some_0@
                == texts["deviceModel"@]
            &&& texts.contains_key("deviceType"@) <==> r->Ok_0.device_type is Some
            &&& texts.contains_key("deviceType"@) ==> r->Ok_0.device_type->Some_0@
                == texts["deviceType"@]
        },
{
    law_sender_fills_in_fields(member_fields(texts, numbers));
}

/// The indices that were read are handed on, all of them and in order.
pub proof fn law_indices_as_read(json: &str, r: Result<Vec<usize>, RequestError>)
    requires
        call_ensures(parse_file_indices, (json,), r),
    ensures
        r is Ok <==> json_indices(json@, usize::MAX as nat) is Ok,
        r matches Ok(indices) ==> indices@ == json_indices(json@, usize::MAX as nat)->Ok_0,
        r matches Err(RequestError::Json(error)) ==> error == json_indices(
            json@,
            usize::MAX as nat,
        )->Err_0,
{
}

/// The report of an import gives the hash before its first colon and, read as a
/// decimal number, the size behind it.
pub proof fn law_import_summary_reads_back(hash_hex: &str, size: u64, summary: String)
    requires
        !hash_hex@.contains(':'),
        call_ensures(import_summary, (hash_hex, size), summary),
    ensures
        split_at_first(summary@, ':') matches Some((head, tail)) && head == hash_hex@
            && number_value(tail) == size && (forall|i: int|
            0 <= i < tail.len() ==> '0' <= #[trigger] tail[i] <= '9'),
{
    law_import_report_reads_back(hash_hex@, size as nat);
}

} // verus!
