use localsend::collection::LocalSendFileMeta;
use localsend::peer_resolver::PeerResolver;
use localsend::provider::ImportError;
use localsend::saf::{checked_fd, fd_path, UriError};
use localsend::text::{decimal_text, has_prefix, signed_decimal_text, split_once};
use localsend::transfer::{
    announce_delays_millis, import_route, import_summary, parse_file_indices, parse_sender_fields,
    parse_sender_info, sender_info, ImportRoute, RequestError, SenderFields, SenderInfo,
};

const FULL: &str = "{\"alias\":\"Pixel\",\"fingerprint\":\"fp\",\"version\":\"2.1\",\"port\":8080,\
    \"protocol\":\"https\",\"deviceModel\":\"Pixel 9\",\"deviceType\":\"mobile\",\"extra\":[1]}";

#[test]
fn full_description_of_a_sender() {
    let info = parse_sender_info(FULL).unwrap();
    assert_eq!(
        info,
        SenderInfo {
            alias: "Pixel".to_string(),
            fingerprint: "fp".to_string(),
            version: "2.1".to_string(),
            port: 8080,
            protocol: Some("https".to_string()),
            device_model: Some("Pixel 9".to_string()),
            device_type: Some("mobile".to_string()),
        }
    );
}

#[test]
fn missing_parts_of_a_description() {
    let defaults = SenderInfo {
        alias: String::new(),
        fingerprint: String::new(),
        version: String::new(),
        port: 53317,
        protocol: None,
        device_model: None,
        device_type: None,
    };
    assert_eq!(parse_sender_info("{}").unwrap(), defaults);
    assert_eq!(parse_sender_info("[1, 2]").unwrap(), defaults);
    let wrong_kinds = "{\"alias\":1,\"port\":\"80\",\"protocol\":null,\"version\":true}";
    assert_eq!(parse_sender_info(wrong_kinds).unwrap(), defaults);
    assert_eq!(parse_sender_info("{\"port\":-1}").unwrap(), defaults);
}

#[test]
fn fields_of_a_description() {
    let fields = parse_sender_fields("{\"alias\":\"A\",\"port\":70000}").unwrap();
    assert_eq!(fields.alias, Some("A".to_string()));
    assert_eq!(fields.fingerprint, None);
    assert_eq!(fields.port, Some(70000));
    assert_eq!(sender_info(fields).port, 4464);
}

#[test]
fn filling_in_a_description() {
    let fields = SenderFields {
        alias: None,
        fingerprint: Some("f".to_string()),
        version: None,
        port: Some(65536),
        protocol: None,
        device_model: Some("m".to_string()),
        device_type: None,
    };
    let info = sender_info(fields);
    assert_eq!(info.alias, "");
    assert_eq!(info.fingerprint, "f");
    assert_eq!(info.port, 0);
    assert_eq!(info.device_model, Some("m".to_string()));
}

#[test]
fn description_that_is_not_json() {
    let error = parse_sender_info("{").unwrap_err();
    let expected = serde_json::from_str::<serde_json::Value>("{").unwrap_err().to_string();
    assert_eq!(error.message(), expected);
    let RequestError::Json(inner) = error;
    assert!(inner.is_eof());
}

#[test]
fn file_indices() {
    assert_eq!(parse_file_indices("[2, 0,1]").unwrap(), vec![2, 0, 1]);
    assert_eq!(parse_file_indices("[]").unwrap(), Vec::<usize>::new());
    for bad in ["[-1]", "[1.5]", "{}", "", "[\"1\"]"] {
        let expected = serde_json::from_str::<Vec<usize>>(bad).unwrap_err().to_string();
        assert_eq!(parse_file_indices(bad).unwrap_err().message(), expected);
    }
}

#[test]
fn announcement_is_discovered_by_others() {
    let info = parse_sender_info(FULL).unwrap();
    let message = info.announcement("hash:addr");
    assert_eq!(message.alias, "Pixel");
    assert_eq!(message.port, 8080);
    assert_eq!(message.protocol, Some("https".to_string()));
    assert_eq!(message.device_type, Some("mobile".to_string()));
    assert!(message.announce);
    assert_eq!(message.iroh_ticket, Some("hash:addr".to_string()));
    let ip = "192.168.1.3".to_string();
    let peer = PeerResolver::parse_message(Some(message.clone()), ip.clone(), "me").unwrap();
    assert_eq!(peer.iroh_ticket, "hash:addr");
    assert_eq!(peer.alias, "Pixel");
    assert!(PeerResolver::parse_message(Some(message), ip, "fp").is_none());
}

#[test]
fn collection_of_a_sender() {
    let info = parse_sender_info(FULL).unwrap();
    let file = LocalSendFileMeta {
        file_name: "a".to_string(),
        size: 3,
        file_type: "text".to_string(),
        hash: "h".to_string(),
        last_modified: Some(-5),
    };
    let collection = info.collection(vec![file.clone()]);
    assert_eq!(collection.sender_alias, "Pixel");
    assert_eq!(collection.sender_fingerprint, "fp");
    assert_eq!(collection.version, "2.1");
    assert_eq!(collection.files, vec![file]);
}

#[test]
fn delays_of_the_announcement() {
    assert_eq!(announce_delays_millis(), vec![100, 500, 2000]);
}

#[test]
fn import_routes() {
    assert_eq!(import_route("/tmp/a", false), Ok(ImportRoute::File));
    assert_eq!(import_route("content:/a", true), Ok(ImportRoute::File));
    assert_eq!(import_route("content://media/1", true), Ok(ImportRoute::ContentUri));
    let error = import_route("content://media/1", false).unwrap_err();
    assert_eq!(error, ImportError::ContentUri);
    assert_eq!(error.message(), "content:// URIs are only supported on Android");
}

#[test]
fn import_summaries() {
    let hex = "0f".repeat(32);
    let summary = import_summary(&hex, 1234);
    assert_eq!(summary, format!("{}:1234", hex));
    assert_eq!(split_once(&summary, ':'), Some((hex.as_str(), "1234")));
}

#[test]
fn file_descriptors() {
    assert_eq!(checked_fd(0), Ok(0));
    assert_eq!(checked_fd(-1), Err(UriError::InvalidFd(-1)));
    assert_eq!(UriError::InvalidFd(-12).message(), "JNI: detachFd returned invalid fd: -12");
    assert_eq!(fd_path(42), "/proc/self/fd/42");
}

#[test]
fn decimals() {
    assert_eq!(decimal_text(0), "0");
    assert_eq!(decimal_text(9075310842), "9075310842");
    assert_eq!(decimal_text(u64::MAX), u64::MAX.to_string());
    assert_eq!(signed_decimal_text(i32::MIN), i32::MIN.to_string());
    assert_eq!(signed_decimal_text(6), "6");
}

#[test]
fn prefixes_and_splits() {
    assert!(has_prefix("abc", ""));
    assert!(has_prefix("\u{e9}t\u{e9}", "\u{e9}t"));
    assert!(!has_prefix("ab", "abc"));
    assert!(!has_prefix("abd", "abc"));
    assert_eq!(split_once("\u{e9}:t:u", ':'), Some(("\u{e9}", "t:u")));
    assert_eq!(split_once("none", ':'), None);
}
