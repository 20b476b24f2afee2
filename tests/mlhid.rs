use mlh_archiver::mlhid::{
    BinMLHIDDeserializationError, StrMLHIDDeserializationError, MLHID, NO_HASH, NO_TYPE,
    NO_VERSION,
};
use mlh_archiver::mlhtypes::NodeType;
use std::cmp::Ordering;

const EMPTY_SHA1: &str = "da39a3ee5e6b4b0d3255bfef95601890afd80709";

#[test]
fn identifiers_hash_their_content() {
    let id = MLHID::from_content_str(NodeType::EmailMessage, "");
    assert_eq!(id.to_text(), format!("mlh:1:emm:{}", EMPTY_SHA1));
    let person = MLHID::from_person_identification("abc");
    assert_eq!(
        person.to_text(),
        "mlh:1:prs:a9993e364706816aba3e25717850c26c9cd0d89d"
    );
    let origin = MLHID::from_origin_url("abc");
    assert_eq!(origin.node_type, NodeType::Origin);
    assert_eq!(origin.hash, person.hash);
}

#[test]
fn text_reads_back() {
    let text = "mlh:1:mls:FFFFFFFFFFFFFFFFFFFFFFFFFFFF000000000004";
    let id = MLHID::parse(text).unwrap();
    assert_eq!(id.node_type, NodeType::MailingList);
    assert_eq!(id.to_text(), "mlh:1:mls:ffffffffffffffffffffffffffff000000000004");
    let again = MLHID::parse(&id.to_text()).unwrap();
    assert_eq!(again, id);
}

#[test]
fn text_errors() {
    let hex = EMPTY_SHA1;
    assert_eq!(
        MLHID::parse(&format!("swh:1:emm:{}", hex)),
        Err(StrMLHIDDeserializationError::Namespace("swh".to_string()))
    );
    assert_eq!(MLHID::parse("mlh"), Err(StrMLHIDDeserializationError::Syntax(NO_VERSION)));
    assert_eq!(
        MLHID::parse(&format!("mlh:2:emm:{}", hex)),
        Err(StrMLHIDDeserializationError::Version("2".to_string()))
    );
    assert_eq!(MLHID::parse("mlh:1"), Err(StrMLHIDDeserializationError::Syntax(NO_TYPE)));
    assert_eq!(MLHID::parse("mlh:1:emm"), Err(StrMLHIDDeserializationError::Syntax(NO_HASH)));
    assert_eq!(
        MLHID::parse("mlh:1:emm:abc"),
        Err(StrMLHIDDeserializationError::HashLength { expected: 40, got: 3 })
    );
    assert_eq!(
        MLHID::parse(&format!("mlh:1:xyz:{}", hex)),
        Err(StrMLHIDDeserializationError::Type("xyz".to_string()))
    );
    let bad = "ZZZZZZZZZZZZZZZZZZZZZZZZZZZZZZZZZZZZZZZZ";
    assert_eq!(
        MLHID::parse(&format!("mlh:1:emm:{}", bad)),
        Err(StrMLHIDDeserializationError::HashAlphabet(bad.to_string()))
    );
    let wide = "é".repeat(20);
    assert_eq!(
        MLHID::parse(&format!("mlh:1:emm:{}", wide)),
        Err(StrMLHIDDeserializationError::HashAlphabet(wide.clone()))
    );
}

#[test]
fn binary_form() {
    let id = MLHID::from_content_str(NodeType::Patch, "x");
    let bytes = id.to_bytes();
    assert_eq!(bytes[0], 1);
    assert_eq!(bytes[1], 4);
    assert_eq!(&bytes[2..], &id.hash[..]);
    assert_eq!(MLHID::from_bytes(bytes).unwrap(), id);
    let mut wrong = bytes;
    wrong[0] = 2;
    assert!(matches!(MLHID::from_bytes(wrong), Err(BinMLHIDDeserializationError::Version(2))));
    let mut wrong = bytes;
    wrong[1] = 9;
    assert!(matches!(MLHID::from_bytes(wrong), Err(BinMLHIDDeserializationError::Type(9))));
}

#[test]
fn radix_levels() {
    let id = MLHID::from_content_str(NodeType::Origin, "");
    assert_eq!(id.get_level(21), 1);
    assert_eq!(id.get_level(20), 3);
    assert_eq!(id.get_level(19), id.hash[0]);
    assert_eq!(id.get_level(0), id.hash[19]);
}

#[test]
fn identifiers_sort_by_version_kind_then_hash() {
    let a = MLHID::parse("mlh:1:mls:0000000000000000000000000000000000000001").unwrap();
    let b = MLHID::parse("mlh:1:ori:0000000000000000000000000000000000000000").unwrap();
    let c = MLHID::parse("mlh:1:mls:0000000000000000000000000000000000000002").unwrap();
    // mls sorts before ori, though its index is higher.
    assert_eq!(a.compare(&b), Ordering::Less);
    assert_eq!(b.compare(&a), Ordering::Greater);
    assert_eq!(a.compare(&c), Ordering::Less);
    assert_eq!(a.compare(&a), Ordering::Equal);
}

#[test]
fn hash_literals() {
    let id = mlh_archiver::mlhid::__parse_mlhid(
        NodeType::EmailBody,
        "0000000000000000000000000000000000000004",
    )
    .unwrap();
    assert_eq!(id.to_text(), "mlh:1:emb:0000000000000000000000000000000000000004");
    let prefixed = mlh_archiver::mlhid::__parse_mlhid(
        NodeType::EmailBody,
        "0x0000000000000000000000000000000000000004",
    );
    assert_eq!(prefixed, Some(id));
    assert_eq!(
        mlh_archiver::mlhid::__parse_mlhid(NodeType::Origin, "00000000000000000000000000000000000004"),
        None
    );
    assert_eq!(
        mlh_archiver::mlhid::__parse_mlhid(NodeType::Origin, "ZZZZZZZZZZZZZZZZZZZZZZZZZZZZZZZZZZZZZZZZ"),
        None
    );
}
