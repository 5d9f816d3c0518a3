use email_parser::entity::resolve_entity;
use email_parser::error::Error;
use email_parser::mime::{ContentTransferEncoding, Disposition, DispositionType, Entity, MimeType, RawEntity};

fn text_entity(encoding: ContentTransferEncoding, charset: Option<&str>, body: &[u8]) -> RawEntity {
    let mut parameters = Vec::new();
    if let Some(cs) = charset {
        parameters.push(("charset".to_string(), cs.to_string()));
    }
    RawEntity {
        mime_type: MimeType::Text,
        subtype: "plain".to_string(),
        description: None,
        id: None,
        parameters,
        disposition: None,
        encoding,
        value: body.to_vec(),
        additional_headers: Vec::new(),
    }
}

fn multipart_entity(boundary: &str, body: &[u8]) -> RawEntity {
    RawEntity {
        mime_type: MimeType::Multipart,
        subtype: "mixed".to_string(),
        description: None,
        id: None,
        parameters: vec![("boundary".to_string(), boundary.to_string())],
        disposition: None,
        encoding: ContentTransferEncoding::SevenBit,
        value: body.to_vec(),
        additional_headers: Vec::new(),
    }
}

#[test]
fn test_multipart_two_sections() {
    let raw = multipart_entity("X", b"--X\r\nAAA\r\n--X\r\nBBB\r\n--X--\r\n");
    match resolve_entity(raw).unwrap() {
        Entity::Multipart { subtype, content } => {
            assert_eq!(subtype, "mixed");
            assert_eq!(content.len(), 2);
            assert_eq!(content[0].value, b"AAA".to_vec());
            assert_eq!(content[1].value, b"BBB".to_vec());
            assert_eq!(content[0].mime_type, MimeType::Text);
            assert_eq!(content[0].subtype, "plain");
        }
        other => panic!("expected a multipart entity, got {:?}", other),
    }
}

#[test]
fn test_multipart_preamble_and_epilogue_discarded() {
    let raw = multipart_entity(
        "b",
        b"preamble\r\n--b\r\nfirst\r\n--b--\r\nepilogue",
    );
    match resolve_entity(raw).unwrap() {
        Entity::Multipart { content, .. } => {
            assert_eq!(content.len(), 1);
            assert_eq!(content[0].value, b"first".to_vec());
        }
        other => panic!("expected a multipart entity, got {:?}", other),
    }
}

#[test]
fn test_multipart_errors() {
    // No boundary parameter at all.
    let mut raw = multipart_entity("X", b"--X\r\nAAA\r\n--X--\r\n");
    raw.parameters.clear();
    assert!(resolve_entity(raw).is_err());
    // A body whose closing delimiter never comes.
    let raw = multipart_entity("X", b"--X\r\nAAA\r\n");
    assert!(resolve_entity(raw).is_err());
    // A body with no delimiters at all.
    let raw = multipart_entity("X", b"no sections here");
    assert!(resolve_entity(raw).is_err());
}

#[test]
fn test_base64_text() {
    let raw = text_entity(
        ContentTransferEncoding::Base64,
        Some("UTF-8"),
        b"aGVsbG8g\r\nd29ybGQ=",
    );
    match resolve_entity(raw).unwrap() {
        Entity::Text { subtype, value } => {
            assert_eq!(subtype, "plain");
            assert_eq!(value, "hello world");
        }
        other => panic!("expected a text entity, got {:?}", other),
    }
    // Corrupting one character of the base64 body is a hard error.
    let raw = text_entity(
        ContentTransferEncoding::Base64,
        Some("UTF-8"),
        b"aGVsbG8g\r\nd29ybGQ~",
    );
    assert!(resolve_entity(raw).is_err());
}

#[test]
fn test_quoted_printable_text() {
    let raw = text_entity(
        ContentTransferEncoding::QuotedPrintable,
        Some("utf-8"),
        b"caf=C3=A9 au=\r\n lait",
    );
    match resolve_entity(raw).unwrap() {
        Entity::Text { value, .. } => assert_eq!(value, "caf\u{e9} au lait"),
        other => panic!("expected a text entity, got {:?}", other),
    }
    let raw = text_entity(
        ContentTransferEncoding::QuotedPrintable,
        Some("utf-8"),
        b"bad =ZZ escape",
    );
    assert!(resolve_entity(raw).is_err());
}

#[test]
fn test_latin1_text() {
    let raw = text_entity(
        ContentTransferEncoding::HeightBit,
        Some("ISO-8859-1"),
        &[99, 97, 102, 233],
    );
    match resolve_entity(raw).unwrap() {
        Entity::Text { value, .. } => assert_eq!(value, "caf\u{e9}"),
        other => panic!("expected a text entity, got {:?}", other),
    }
}

#[test]
fn test_invalid_utf8_is_error() {
    let raw = text_entity(ContentTransferEncoding::SevenBit, Some("utf-8"), &[0xFF, 0xFE]);
    assert_eq!(
        resolve_entity(raw).unwrap_err(),
        Error::Known("text entity is not valid utf-8")
    );
    // Without a charset parameter the default is us-ascii, validated as a
    // UTF-8 subset.
    let raw = text_entity(ContentTransferEncoding::SevenBit, None, b"plain ascii");
    match resolve_entity(raw).unwrap() {
        Entity::Text { value, .. } => assert_eq!(value, "plain ascii"),
        other => panic!("expected a text entity, got {:?}", other),
    }
}

#[test]
fn test_unknown_fallbacks() {
    // An unrecognized top-level type comes back untouched, never an error.
    let mut raw = text_entity(ContentTransferEncoding::SevenBit, Some("utf-8"), b"data");
    raw.mime_type = MimeType::Other("x-custom".to_string());
    let original = raw.clone();
    match resolve_entity(raw).unwrap() {
        Entity::Unknown(inner) => assert_eq!(*inner, original),
        other => panic!("expected an unknown entity, got {:?}", other),
    }
    // So does text under an unsupported charset.
    let raw = text_entity(ContentTransferEncoding::SevenBit, Some("utf-16"), b"data");
    let original = raw.clone();
    match resolve_entity(raw).unwrap() {
        Entity::Unknown(inner) => assert_eq!(*inner, original),
        other => panic!("expected an unknown entity, got {:?}", other),
    }
    // And text under an unsupported transfer encoding.
    let raw = text_entity(
        ContentTransferEncoding::Other("x-zip".to_string()),
        Some("utf-8"),
        b"data",
    );
    let original = raw.clone();
    match resolve_entity(raw).unwrap() {
        Entity::Unknown(inner) => assert_eq!(*inner, original),
        other => panic!("expected an unknown entity, got {:?}", other),
    }
    // Message is composite but not specialized by this engine.
    let mut raw = text_entity(ContentTransferEncoding::SevenBit, None, b"data");
    raw.mime_type = MimeType::Message;
    let original = raw.clone();
    match raw.parse().unwrap() {
        Entity::Unknown(inner) => assert_eq!(*inner, original),
        other => panic!("expected an unknown entity, got {:?}", other),
    }
}

#[test]
fn test_deep_multipart_nesting() {
    // Resolution handles one nesting level per call and never recurses, so
    // adversarial nesting depth costs iterations, not call-stack frames.
    let mut body: Vec<u8> = b"leaf".to_vec();
    let depth = 2000;
    for i in 0..depth {
        let boundary = format!("b{}", i);
        let mut wrapped: Vec<u8> = format!("--{}\r\n", boundary).into_bytes();
        wrapped.extend_from_slice(&body);
        wrapped.extend_from_slice(format!("\r\n--{}--\r\n", boundary).as_bytes());
        body = wrapped;
    }
    for j in 0..depth {
        let boundary = format!("b{}", depth - 1 - j);
        let raw = multipart_entity(&boundary, &body);
        match resolve_entity(raw).unwrap() {
            Entity::Multipart { mut content, .. } => {
                assert_eq!(content.len(), 1);
                body = content.remove(0).value;
            }
            other => panic!("expected a multipart entity, got {:?}", other),
        }
    }
    assert_eq!(body, b"leaf".to_vec());
}

#[test]
fn test_model_helpers() {
    assert!(MimeType::Message.is_composite_type());
    assert!(MimeType::Multipart.is_composite_type());
    assert!(!MimeType::Text.is_composite_type());
    assert!(!MimeType::Other("x".to_string()).is_composite_type());

    assert_eq!(
        MimeType::Other("x".to_string()).into_owned(),
        MimeType::Other("x".to_string())
    );
    assert_eq!(
        DispositionType::Unknown("u".to_string()).into_owned(),
        DispositionType::Unknown("u".to_string())
    );
    assert_eq!(
        ContentTransferEncoding::Base64.into_owned(),
        ContentTransferEncoding::Base64
    );
    let d = Disposition {
        disposition_type: DispositionType::Attachment,
        filename: Some("a.txt".to_string()),
        creation_date: None,
        modification_date: None,
        read_date: None,
        unstructured: Vec::new(),
    };
    assert_eq!(d.clone().into_owned(), d);
}
