use serde_json::Value;
use switchyard::json::{object_field, text_field, truth_field};
use switchyard::media::{
    describe_image, file_data_payload, file_payload, file_source_text, file_source_value,
    image_payload, image_source_text, image_source_value, raw_file_payload, raw_image_payload,
    FileSource, ImagePayload, ImageSource,
};

fn json(text: &str) -> Value {
    serde_json::from_str(text).unwrap()
}

fn parts(payload: Option<ImagePayload>) -> Option<(String, Option<String>)> {
    payload.map(|payload| (payload.url, payload.detail))
}

fn plain(url: &str) -> Option<(String, Option<String>)> {
    Some((url.to_string(), None))
}

fn object(payload: Option<serde_json::Map<String, Value>>) -> Option<Value> {
    payload.map(Value::Object)
}

#[test]
fn url_sources_keep_their_detail() {
    let source = ImageSource::Url {
        url: "https://example.test/a.png".to_string(),
        detail: Some("high".to_string()),
    };
    assert_eq!(
        parts(image_payload(&source)),
        Some(("https://example.test/a.png".to_string(), Some("high".to_string())))
    );
}

#[test]
fn base64_images_become_data_urls() {
    let source = ImageSource::Base64 {
        media_type: Some("image/png".to_string()),
        data: "AAAA".to_string(),
    };
    assert_eq!(parts(image_payload(&source)), plain("data:image/png;base64,AAAA"));
}

#[test]
fn base64_images_need_a_media_type() {
    let source = ImageSource::Base64 { media_type: None, data: "AAAA".to_string() };
    assert_eq!(parts(image_payload(&source)), None);
}

#[test]
fn image_blocks_are_sent_as_their_base64_source() {
    let raw = json(
        r#"{"type": "image", "cache": 1,
            "source": {"type": "base64", "media_type": "image/gif", "data": "R0lG"}}"#,
    );
    let same = ImageSource::Base64 {
        media_type: Some("image/gif".to_string()),
        data: "R0lG".to_string(),
    };
    assert_eq!(parts(raw_image_payload(&raw)), plain("data:image/gif;base64,R0lG"));
    assert_eq!(parts(image_payload(&ImageSource::Raw(raw))), parts(image_payload(&same)));
}

#[test]
fn image_blocks_with_url_sources_are_sent_by_url() {
    let raw = json(r#"{"type": "image", "source": {"type": "url", "url": "https://example.test/b"}}"#);
    assert_eq!(parts(raw_image_payload(&raw)), plain("https://example.test/b"));
}

#[test]
fn image_blocks_with_other_sources_are_not_sent() {
    for text in [
        r#"{"type": "image", "source": {"type": "file", "url": "https://example.test/b"}}"#,
        r#"{"type": "image", "source": {"url": "https://example.test/b"}}"#,
        r#"{"type": "image", "source": "https://example.test/b"}"#,
        r#"{"type": "image", "url": "https://example.test/b"}"#,
        r#"["image"]"#,
        r#""image""#,
        "null",
        "{}",
    ] {
        assert_eq!(parts(raw_image_payload(&json(text))), None, "{text}");
    }
}

#[test]
fn raw_images_prefer_urls_to_data() {
    let both = json(r#"{"type": "input_image", "url": "u", "image_url": "i", "data": "d"}"#);
    assert_eq!(parts(raw_image_payload(&both)), plain("u"));
    let image_url = json(r#"{"type": "input_image", "url": 3, "image_url": "i", "data": "d"}"#);
    assert_eq!(parts(raw_image_payload(&image_url)), plain("i"));
    let data = json(r#"{"data": "d"}"#);
    assert_eq!(
        parts(raw_image_payload(&data)),
        plain("data:application/octet-stream;base64,d")
    );
}

#[test]
fn described_images_follow_the_same_order() {
    assert_eq!(parts(describe_image(Some("u"), Some("i"), Some("d"), None)), plain("u"));
    assert_eq!(parts(describe_image(None, Some("i"), Some("d"), None)), plain("i"));
    assert_eq!(
        parts(describe_image(None, None, Some("d"), Some("text/plain"))),
        plain("data:text/plain;base64,d")
    );
    assert_eq!(parts(describe_image(None, None, None, Some("text/plain"))), None);
}

#[test]
fn image_texts_are_compact_json() {
    let url = ImageSource::Url { url: "u\"".to_string(), detail: None };
    assert_eq!(image_source_text(&url), r#"{"detail":null,"url":"u\""}"#);
    let detailed = ImageSource::Url { url: "u".to_string(), detail: Some("low".to_string()) };
    assert_eq!(image_source_text(&detailed), r#"{"detail":"low","url":"u"}"#);
    let data = ImageSource::Base64 { media_type: None, data: "d".to_string() };
    assert_eq!(image_source_text(&data), r#"{"data":"d","media_type":null}"#);
    assert_eq!(image_source_value(&data), json(r#"{"media_type": null, "data": "d"}"#));
    let raw = ImageSource::Raw(json(r#"{"b": [1, true], "a": null}"#));
    assert_eq!(image_source_text(&raw), r#"{"a":null,"b":[1,true]}"#);
}

#[test]
fn file_ids_are_sent_as_ids() {
    let source = FileSource::FileId("file_1".to_string());
    assert_eq!(object(file_payload(&source)), Some(json(r#"{"file_id": "file_1"}"#)));
}

#[test]
fn file_data_is_sent_with_its_name_where_known() {
    assert_eq!(
        Value::Object(file_data_payload("d", Some("a.pdf"))),
        json(r#"{"file_data": "d", "filename": "a.pdf"}"#)
    );
    assert_eq!(Value::Object(file_data_payload("d", None)), json(r#"{"file_data": "d"}"#));
    let source = FileSource::FileData { data: "d".to_string(), filename: None };
    assert_eq!(object(file_payload(&source)), Some(json(r#"{"file_data": "d"}"#)));
}

#[test]
fn documents_are_sent_as_file_data_without_provider_ids() {
    let raw = json(
        r#"{"type": "document", "title": "T", "file_id": "secret",
            "source": {"type": "base64", "data": "d", "file_id": "secret"}}"#,
    );
    let sent = json(r#"{"file_data": "d", "filename": "T"}"#);
    assert_eq!(object(raw_file_payload(&raw)), Some(sent.clone()));
    let same = FileSource::FileData { data: "d".to_string(), filename: Some("T".to_string()) };
    assert_eq!(object(file_payload(&same)), Some(sent.clone()));
    assert_eq!(object(file_payload(&FileSource::Raw(raw))), Some(sent));
    let untitled = json(r#"{"type": "document", "source": {"type": "base64", "data": "d"}}"#);
    assert_eq!(object(raw_file_payload(&untitled)), Some(json(r#"{"file_data": "d"}"#)));
}

#[test]
fn other_raw_files_are_not_sent() {
    for text in [
        r#"{"type": "document", "source": {"type": "file", "file_id": "f", "data": "d"}}"#,
        r#"{"type": "document", "source": {"type": "base64"}}"#,
        r#"{"type": "document", "data": "d"}"#,
        r#"{"type": "file", "source": {"type": "base64", "data": "d"}}"#,
        r#"{"source": {"type": "base64", "data": "d"}}"#,
        "[]",
    ] {
        assert_eq!(object(raw_file_payload(&json(text))), None, "{text}");
    }
}

#[test]
fn file_texts_are_compact_json() {
    let id = FileSource::FileId("f".to_string());
    assert_eq!(file_source_text(&id), r#"{"file_id":"f"}"#);
    let data = FileSource::FileData { data: "d".to_string(), filename: None };
    assert_eq!(file_source_text(&data), r#"{"file_data":"d","filename":null}"#);
    assert_eq!(file_source_value(&data), json(r#"{"file_data": "d", "filename": null}"#));
    let raw = FileSource::Raw(json("[ 1.5, {} ]"));
    assert_eq!(file_source_text(&raw), "[1.5,{}]");
}

#[test]
fn fields_are_read_by_their_type() {
    let value = json(r#"{"text": "t", "truth": false, "object": {"id": "i"}, "null": null}"#);
    let fields = value.as_object().unwrap();
    assert_eq!(text_field(fields, "text"), Some("t"));
    assert_eq!(text_field(fields, "truth"), None);
    assert_eq!(text_field(fields, "missing"), None);
    assert_eq!(truth_field(fields, "truth"), Some(false));
    assert_eq!(truth_field(fields, "text"), None);
    assert_eq!(object_field(fields, "object").and_then(|held| text_field(held, "id")), Some("i"));
    assert!(object_field(fields, "null").is_none());
}
