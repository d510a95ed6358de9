//! Image and file payloads shared by the OpenAI Chat and Responses codecs.

use serde_json::Value;
use vstd::prelude::*;
use vstd::string::*;

use crate::json::{
    json_fields, json_string, json_text, json_view, no_fields, null_value, object_field,
    object_field_of, object_value, text_field, text_field_of, text_value, JsonView,
};
use crate::text::{borrow_text, copy_text, is_text};

verus! {

/// Where the bytes of an image come from.
#[derive(Debug)]
pub enum ImageSource {
    /// An image at a URL, with the resolution hint given for it.
    Url { url: String, detail: Option<String> },
    /// Base64 text, with its media type where that is known.
    Base64 { media_type: Option<String>, data: String },
    /// A provider's own JSON shape.
    Raw(Value),
}

/// Where the bytes of a file come from.
#[derive(Debug)]
pub enum FileSource {
    /// A file that the provider stores.
    FileId(String),
    /// The file's data, with its name where that is known.
    FileData { data: String, filename: Option<String> },
    /// A provider's own JSON shape.
    Raw(Value),
}

/// An image as the OpenAI codecs send it.
#[derive(Debug)]
pub struct ImagePayload {
    pub url: String,
    pub detail: Option<String>,
}

/// The contents of an [`ImageSource`].
pub enum ImageSourceView {
    Url { url: Seq<char>, detail: Option<Seq<char>> },
    Base64 { media_type: Option<Seq<char>>, data: Seq<char> },
    Raw(JsonView),
}

/// The contents of a [`FileSource`].
pub enum FileSourceView {
    FileId(Seq<char>),
    FileData { data: Seq<char>, filename: Option<Seq<char>> },
    Raw(JsonView),
}

/// The contents of an [`ImagePayload`].
pub struct ImagePayloadView {
    pub url: Seq<char>,
    pub detail: Option<Seq<char>>,
}

impl View for ImageSource {
    type V = ImageSourceView;

    open spec fn view(&self) -> ImageSourceView {
        match *self {
            ImageSource::Url { url, detail } => ImageSourceView::Url {
                url: url@,
                detail: detail.deep_view(),
            },
            ImageSource::Base64 { media_type, data } => ImageSourceView::Base64 {
                media_type: media_type.deep_view(),
                data: data@,
            },
            ImageSource::Raw(raw) => ImageSourceView::Raw(json_view(raw)),
        }
    }
}

impl View for FileSource {
    type V = FileSourceView;

    open spec fn view(&self) -> FileSourceView {
        match *self {
            FileSource::FileId(file_id) => FileSourceView::FileId(file_id@),
            FileSource::FileData { data, filename } => FileSourceView::FileData {
                data: data@,
                filename: filename.deep_view(),
            },
            FileSource::Raw(raw) => FileSourceView::Raw(json_view(raw)),
        }
    }
}

impl View for ImagePayload {
    type V = ImagePayloadView;

    open spec fn view(&self) -> ImagePayloadView {
        ImagePayloadView { url: self.url@, detail: self.detail.deep_view() }
    }
}

/// An optional payload, by contents.
pub open spec fn payload_view(payload: Option<ImagePayload>) -> Option<ImagePayloadView> {
    match payload {
        Some(held) => Some(held@),
        None => None,
    }
}

/// The data URL of base64 text.
pub open spec fn data_url_of(media_type: Seq<char>, data: Seq<char>) -> Seq<char> {
    "data:"@ + media_type + ";base64,"@ + data
}

/// A payload without a resolution hint.
pub open spec fn plain_image(url: Seq<char>) -> ImagePayloadView {
    ImagePayloadView { url, detail: None }
}

/// The object of a raw image that names its URL or data.
///
/// That is the source of an image block, provided the source is declared as base64 or URL, and
/// the object itself when it is no image block.
pub open spec fn raw_image_fields(raw: JsonView) -> Option<Map<Seq<char>, JsonView>> {
    match raw.as_fields() {
        Some(object) => if text_field_of(object, "type"@) == Some("image"@) {
            match object_field_of(object, "source"@) {
                Some(source) => if text_field_of(source, "type"@) == Some("base64"@)
                    || text_field_of(source, "type"@) == Some("url"@) {
                    Some(source)
                } else {
                    None
                },
                None => None,
            }
        } else {
            Some(object)
        },
        None => None,
    }
}

/// The payload of the texts that a raw image may carry: a URL wins over an image URL, and both
/// over data, which defaults to the media type of arbitrary bytes.
pub open spec fn described_image(
    url: Option<Seq<char>>,
    image_url: Option<Seq<char>>,
    data: Option<Seq<char>>,
    media_type: Option<Seq<char>>,
) -> Option<ImagePayloadView> {
    match (url, image_url, data) {
        (Some(url), _, _) => Some(plain_image(url)),
        (None, Some(url), _) => Some(plain_image(url)),
        (None, None, Some(data)) => Some(
            plain_image(
                data_url_of(
                    match media_type {
                        Some(held) => held,
                        None => "application/octet-stream"@,
                    },
                    data,
                ),
            ),
        ),
        (None, None, None) => None,
    }
}

/// The payload of a raw image.
pub open spec fn raw_image_of(raw: JsonView) -> Option<ImagePayloadView> {
    match raw_image_fields(raw) {
        Some(fields) => described_image(
            text_field_of(fields, "url"@),
            text_field_of(fields, "image_url"@),
            text_field_of(fields, "data"@),
            text_field_of(fields, "media_type"@),
        ),
        None => None,
    }
}

/// The payload of an image.
pub open spec fn image_of(source: ImageSourceView) -> Option<ImagePayloadView> {
    match source {
        ImageSourceView::Url { url, detail } => Some(ImagePayloadView { url, detail }),
        ImageSourceView::Base64 { media_type, data } => match media_type {
            Some(held) => Some(plain_image(data_url_of(held, data))),
            None => None,
        },
        ImageSourceView::Raw(raw) => raw_image_of(raw),
    }
}

/// Writes base64 text as a data URL.
fn data_url(media_type: &str, data: &str) -> (url: String)
    ensures
        url@ == data_url_of(media_type@, data@),
{
    "data:".to_string().concat(media_type).concat(";base64,").concat(data)
}

/// Picks the payload from the texts that a raw image carries.
pub fn describe_image(
    url: Option<&str>,
    image_url: Option<&str>,
    data: Option<&str>,
    media_type: Option<&str>,
) -> (payload: Option<ImagePayload>)
    ensures
        payload_view(payload) == described_image(
            url.deep_view(),
            image_url.deep_view(),
            data.deep_view(),
            media_type.deep_view(),
        ),
{
    if let Some(url) = url {
        return Some(ImagePayload { url: url.to_string(), detail: None });
    }
    if let Some(url) = image_url {
        return Some(ImagePayload { url: url.to_string(), detail: None });
    }
    match data {
        Some(data) => {
            let media_type = match media_type {
                Some(held) => held,
                None => "application/octet-stream",
            };
            Some(ImagePayload { url: data_url(media_type, data), detail: None })
        },
        None => None,
    }
}

/// Recognizes common raw image shapes emitted by Anthropic and Responses.
pub fn raw_image_payload(raw: &Value) -> (payload: Option<ImagePayload>)
    ensures
        payload_view(payload) == raw_image_of(json_view(*raw)),
{
    let object = match raw.as_object() {
        Some(object) => object,
        None => {
            return None;
        },
    };
    let object = if is_text(text_field(object, "type"), "image") {
        let source = match object_field(object, "source") {
            Some(source) => source,
            None => {
                return None;
            },
        };
        let kind = text_field(source, "type");
        if !is_text(kind, "base64") && !is_text(kind, "url") {
            return None;
        }
        source
    } else {
        object
    };
    describe_image(
        text_field(object, "url"),
        text_field(object, "image_url"),
        text_field(object, "data"),
        text_field(object, "media_type"),
    )
}

/// The payload to send for an image; `None` if the source cannot be expressed as one.
pub fn image_payload(source: &ImageSource) -> (payload: Option<ImagePayload>)
    ensures
        payload_view(payload) == image_of(source@),
{
    match source {
        ImageSource::Url { url, detail } => Some(
            ImagePayload { url: url.clone(), detail: copy_text(detail) },
        ),
        ImageSource::Base64 { media_type, data } => match media_type {
            Some(media_type) => Some(
                ImagePayload { url: data_url(media_type.as_str(), data.as_str()), detail: None },
            ),
            None => None,
        },
        ImageSource::Raw(raw) => raw_image_payload(raw),
    }
}

/// The JSON form of an optional text: null when there is none.
pub open spec fn optional_json(text: Option<Seq<char>>) -> JsonView {
    match text {
        Some(held) => JsonView::Text(held),
        None => JsonView::Null,
    }
}

/// The JSON value that describes an image source.
pub open spec fn image_source_json(source: ImageSourceView) -> JsonView {
    match source {
        ImageSourceView::Url { url, detail } => JsonView::Object(
            no_fields().insert("url"@, JsonView::Text(url)).insert("detail"@, optional_json(detail)),
        ),
        ImageSourceView::Base64 { media_type, data } => JsonView::Object(
            no_fields().insert("media_type"@, optional_json(media_type)).insert(
                "data"@,
                JsonView::Text(data),
            ),
        ),
        ImageSourceView::Raw(raw) => raw,
    }
}

/// The JSON value that describes a file source.
pub open spec fn file_source_json(source: FileSourceView) -> JsonView {
    match source {
        FileSourceView::FileId(file_id) => JsonView::Object(
            no_fields().insert("file_id"@, JsonView::Text(file_id)),
        ),
        FileSourceView::FileData { data, filename } => JsonView::Object(
            no_fields().insert("file_data"@, JsonView::Text(data)).insert(
                "filename"@,
                optional_json(filename),
            ),
        ),
        FileSourceView::Raw(raw) => raw,
    }
}

/// The payload of file data: the data, and the name where there is one.
pub open spec fn file_data_fields(data: Seq<char>, filename: Option<Seq<char>>) -> Map<
    Seq<char>,
    JsonView,
> {
    let payload = no_fields().insert("file_data"@, JsonView::Text(data));
    match filename {
        Some(held) => payload.insert("filename"@, JsonView::Text(held)),
        None => payload,
    }
}

/// The payload of a raw file: the data and title of a document block with a base64 source.
pub open spec fn raw_file_of(raw: JsonView) -> Option<Map<Seq<char>, JsonView>> {
    match raw.as_fields() {
        Some(block) => match object_field_of(block, "source"@) {
            Some(source) => match text_field_of(source, "data"@) {
                Some(data) => if text_field_of(block, "type"@) == Some("document"@)
                    && text_field_of(source, "type"@) == Some("base64"@) {
                    Some(file_data_fields(data, text_field_of(block, "title"@)))
                } else {
                    None
                },
                None => None,
            },
            None => None,
        },
        None => None,
    }
}

/// The payload of a file.
pub open spec fn file_of(source: FileSourceView) -> Option<Map<Seq<char>, JsonView>> {
    match source {
        FileSourceView::FileId(file_id) => Some(
            no_fields().insert("file_id"@, JsonView::Text(file_id)),
        ),
        FileSourceView::FileData { data, filename } => Some(file_data_fields(data, filename)),
        FileSourceView::Raw(raw) => raw_file_of(raw),
    }
}

/// An optional JSON object, by contents.
pub open spec fn object_view(object: Option<serde_json::Map<String, Value>>) -> Option<
    Map<Seq<char>, JsonView>,
> {
    match object {
        Some(held) => Some(json_fields(held)),
        None => None,
    }
}

/// An optional text as a JSON value.
fn optional_value(text: &Option<String>) -> (value: Value)
    ensures
        json_view(value) == optional_json(text.deep_view()),
{
    match text {
        Some(held) => text_value(held.clone()),
        None => null_value(),
    }
}

/// The JSON value that describes an image source.
pub fn image_source_value(source: &ImageSource) -> (value: Value)
    ensures
        json_view(value) == image_source_json(source@),
{
    match source {
        ImageSource::Url { url, detail } => {
            let mut object = serde_json::Map::new();
            object.insert("url".to_string(), text_value(url.clone()));
            object.insert("detail".to_string(), optional_value(detail));
            object_value(object)
        },
        ImageSource::Base64 { media_type, data } => {
            let mut object = serde_json::Map::new();
            object.insert("media_type".to_string(), optional_value(media_type));
            object.insert("data".to_string(), text_value(data.clone()));
            object_value(object)
        },
        ImageSource::Raw(raw) => raw.clone(),
    }
}

/// The text that stands for an image where none can be sent.
pub fn image_source_text(source: &ImageSource) -> (text: String)
    ensures
        text@ == json_text(image_source_json(source@)),
{
    json_string(&image_source_value(source))
}

/// Writes file data as a payload.
pub fn file_data_payload(data: &str, filename: Option<&str>) -> (payload: serde_json::Map<
    String,
    Value,
>)
    ensures
        json_fields(payload) == file_data_fields(data@, filename.deep_view()),
{
    let mut payload = serde_json::Map::new();
    payload.insert("file_data".to_string(), text_value(data.to_string()));
    if let Some(filename) = filename {
        payload.insert("filename".to_string(), text_value(filename.to_string()));
    }
    payload
}

/// Maps portable fields from raw Anthropic documents without forwarding provider-managed IDs.
pub fn raw_file_payload(raw: &Value) -> (payload: Option<serde_json::Map<String, Value>>)
    ensures
        object_view(payload) == raw_file_of(json_view(*raw)),
{
    let block = match raw.as_object() {
        Some(block) => block,
        None => {
            return None;
        },
    };
    if !is_text(text_field(block, "type"), "document") {
        return None;
    }
    let source = match object_field(block, "source") {
        Some(source) => source,
        None => {
            return None;
        },
    };
    if !is_text(text_field(source, "type"), "base64") {
        return None;
    }
    match text_field(source, "data") {
        Some(data) => Some(file_data_payload(data, text_field(block, "title"))),
        None => None,
    }
}

/// The payload to send for a file; `None` if the source cannot be expressed as one.
pub fn file_payload(source: &FileSource) -> (payload: Option<serde_json::Map<String, Value>>)
    ensures
        object_view(payload) == file_of(source@),
{
    match source {
        FileSource::FileId(file_id) => {
            let mut payload = serde_json::Map::new();
            payload.insert("file_id".to_string(), text_value(file_id.clone()));
            Some(payload)
        },
        FileSource::FileData { data, filename } => Some(
            file_data_payload(data.as_str(), borrow_text(filename)),
        ),
        FileSource::Raw(raw) => raw_file_payload(raw),
    }
}

/// The JSON value that describes a file source.
pub fn file_source_value(source: &FileSource) -> (value: Value)
    ensures
        json_view(value) == file_source_json(source@),
{
    match source {
        FileSource::FileId(file_id) => {
            let mut object = serde_json::Map::new();
            object.insert("file_id".to_string(), text_value(file_id.clone()));
            object_value(object)
        },
        FileSource::FileData { data, filename } => {
            let mut object = serde_json::Map::new();
            object.insert("file_data".to_string(), text_value(data.clone()));
            object.insert("filename".to_string(), optional_value(filename));
            object_value(object)
        },
        FileSource::Raw(raw) => raw.clone(),
    }
}

/// The text that stands for a file where none can be sent.
pub fn file_source_text(source: &FileSource) -> (text: String)
    ensures
        text@ == json_text(file_source_json(source@)),
{
    json_string(&file_source_value(source))
}

/// A raw image block with a base64 source is sent as the same payload as that base64 text with
/// its media type, whatever else the block carries, as long as its source names no URL.
pub proof fn law_image_block_equals_base64(
    block: Map<Seq<char>, JsonView>,
    source: Map<Seq<char>, JsonView>,
    media_type: Seq<char>,
    data: Seq<char>,
)
    requires
        text_field_of(block, "type"@) == Some("image"@),
        object_field_of(block, "source"@) == Some(source),
        text_field_of(source, "type"@) == Some("base64"@),
        text_field_of(source, "media_type"@) == Some(media_type),
        text_field_of(source, "data"@) == Some(data),
        text_field_of(source, "url"@) is None,
        text_field_of(source, "image_url"@) is None,
    ensures
        image_of(ImageSourceView::Raw(JsonView::Object(block))) == image_of(
            ImageSourceView::Base64 { media_type: Some(media_type), data },
        ),
        image_of(ImageSourceView::Raw(JsonView::Object(block))) == Some(
            plain_image(data_url_of(media_type, data)),
        ),
{
}

/// A resolution hint is sent only where a URL source gave one.
pub proof fn law_detail_comes_from_url_sources(source: ImageSourceView)
    ensures
        image_of(source) matches Some(payload) ==> match source {
            ImageSourceView::Url { url, detail } => payload.url == url && payload.detail == detail,
            _ => payload.detail is None,
        },
{
}

/// Only a file that was given by its ID is sent by an ID: neither file data nor a raw document
/// ever yields one.
pub proof fn law_only_file_ids_send_ids(source: FileSourceView)
    ensures
        file_of(source) matches Some(payload) ==> (payload.contains_key("file_id"@)
            <==> source is FileId),
{
    reveal_strlit("file_id");
    reveal_strlit("file_data");
    reveal_strlit("filename");
    assert("file_data"@.len() != "file_id"@.len());
    assert("filename"@.len() != "file_id"@.len());
}

/// A raw document is sent exactly as the same data under the document's title.
pub proof fn law_document_equals_file_data(
    block: Map<Seq<char>, JsonView>,
    source: Map<Seq<char>, JsonView>,
    data: Seq<char>,
)
    requires
        text_field_of(block, "type"@) == Some("document"@),
        object_field_of(block, "source"@) == Some(source),
        text_field_of(source, "type"@) == Some("base64"@),
        text_field_of(source, "data"@) == Some(data),
    ensures
        file_of(FileSourceView::Raw(JsonView::Object(block))) == file_of(
            FileSourceView::FileData { data, filename: text_field_of(block, "title"@) },
        ),
{
}

} // verus!
