//! Laws of image and file payloads.

use serde_json::Value;
use vstd::prelude::*;

use crate::json::{json_fields, json_text, json_view, JsonView};
use crate::laws::fields::{holds, holds_text, text_at};
use crate::media::{
    describe_image, file_data_payload, file_payload, file_source_text, file_source_value,
    image_payload, image_source_text, image_source_value, raw_file_payload, raw_image_payload,
    FileSource, ImagePayload, ImageSource,
};

verus! {

/// An image at a URL is always sent: by that URL, with the hint that was given for it, if any.
pub proof fn law_url_images_are_sent(
    url: String,
    detail: Option<String>,
    payload: Option<ImagePayload>,
)
    requires
        call_ensures(image_payload, (&ImageSource::Url { url, detail },), payload),
    ensures
        payload is Some,
        payload->0.url@ == url@,
        payload->0.detail.deep_view() == detail.deep_view(),
{
}

/// Base64 text is sent exactly if its media type is known: as the data URL of both, without a
/// hint.
pub proof fn law_base64_images_are_sent_as_data_urls(
    media_type: Option<String>,
    data: String,
    payload: Option<ImagePayload>,
)
    requires
        call_ensures(image_payload, (&ImageSource::Base64 { media_type, data },), payload),
    ensures
        payload is Some <==> media_type is Some,
        media_type matches Some(held) ==> {
            &&& payload->0.url@ == "data:"@ + held@ + ";base64,"@ + data@
            &&& payload->0.detail is None
        },
{
}

/// A raw image in no image block is sent by what it names, in this order: a URL, an image URL, or
/// data, whose media type is that of arbitrary bytes where none is given. It is not sent if it
/// names none of them.
pub proof fn law_raw_images_are_sent_by_what_they_name(
    raw: Value,
    fields: Map<Seq<char>, JsonView>,
    payload: Option<ImagePayload>,
)
    requires
        call_ensures(image_payload, (&ImageSource::Raw(raw),), payload),
        json_view(raw) == JsonView::Object(fields),
        !holds(fields, "type"@, JsonView::Text("image"@)),
    ensures
        payload is Some ==> payload->0.detail is None,
        payload is Some <==> holds_text(fields, "url"@) || holds_text(fields, "image_url"@)
            || holds_text(fields, "data"@),
        holds_text(fields, "url"@) ==> payload->0.url@ == text_at(fields, "url"@),
        !holds_text(fields, "url"@) && holds_text(fields, "image_url"@) ==> payload->0.url@
            == text_at(fields, "image_url"@),
        !holds_text(fields, "url"@) && !holds_text(fields, "image_url"@) && holds_text(
            fields,
            "data"@,
        ) && holds_text(fields, "media_type"@) ==> payload->0.url@ == "data:"@ + text_at(
            fields,
            "media_type"@,
        ) + ";base64,"@ + text_at(fields, "data"@),
        !holds_text(fields, "url"@) && !holds_text(fields, "image_url"@) && holds_text(
            fields,
            "data"@,
        ) && !holds_text(fields, "media_type"@) ==> payload->0.url@ == "data:"@
            + "application/octet-stream"@ + ";base64,"@ + text_at(fields, "data"@),
{
}

/// A raw image that is no JSON object is not sent.
pub proof fn law_raw_images_are_objects(raw: Value, payload: Option<ImagePayload>)
    requires
        call_ensures(image_payload, (&ImageSource::Raw(raw),), payload),
        !(json_view(raw) is Object),
    ensures
        payload is None,
{
}

/// An image block is sent as its source would be on its own, whatever else the block carries, if
/// the source is an object that declares itself as base64 or as a URL. Otherwise it is not sent.
pub proof fn law_image_blocks_are_sent_as_their_source(
    raw: Value,
    source: Value,
    block: Map<Seq<char>, JsonView>,
    fields: Map<Seq<char>, JsonView>,
    payload: Option<ImagePayload>,
    alone: Option<ImagePayload>,
)
    requires
        call_ensures(image_payload, (&ImageSource::Raw(raw),), payload),
        call_ensures(image_payload, (&ImageSource::Raw(source),), alone),
        json_view(raw) == JsonView::Object(block),
        holds(block, "type"@, JsonView::Text("image"@)),
        json_view(source) == JsonView::Object(fields),
    ensures
        holds(block, "source"@, JsonView::Object(fields)) && (holds(
            fields,
            "type"@,
            JsonView::Text("base64"@),
        ) || holds(fields, "type"@, JsonView::Text("url"@))) ==> {
            &&& payload is Some <==> alone is Some
            &&& payload is Some ==> payload->0.url@ == alone->0.url@ && payload->0.detail is None
        },
        holds(block, "source"@, JsonView::Object(fields)) && !holds(
            fields,
            "type"@,
            JsonView::Text("base64"@),
        ) && !holds(fields, "type"@, JsonView::Text("url"@)) ==> payload is None,
        !(block.contains_key("source"@) && block["source"@] is Object) ==> payload is None,
{
    reveal_strlit("image");
    reveal_strlit("base64");
    reveal_strlit("url");
    assert("image"@.len() == 5 && "base64"@.len() == 6 && "url"@.len() == 3);
}

/// A raw source is recognized in the same way on its own.
pub proof fn law_raw_sources_are_recognized_alike(
    raw: Value,
    image: Option<ImagePayload>,
    raw_image: Option<ImagePayload>,
    file: Option<serde_json::Map<String, Value>>,
    raw_file: Option<serde_json::Map<String, Value>>,
)
    requires
        call_ensures(image_payload, (&ImageSource::Raw(raw),), image),
        call_ensures(raw_image_payload, (&raw,), raw_image),
        call_ensures(file_payload, (&FileSource::Raw(raw),), file),
        call_ensures(raw_file_payload, (&raw,), raw_file),
    ensures
        image is Some <==> raw_image is Some,
        image is Some ==> image->0.url@ == raw_image->0.url@ && image->0.detail.deep_view()
            == raw_image->0.detail.deep_view(),
        file is Some <==> raw_file is Some,
        file is Some ==> json_fields(file->0) == json_fields(raw_file->0),
{
}

/// Of the texts that may describe an image, a URL wins over an image URL, and both over data.
pub proof fn law_descriptions_have_an_order(
    url: Option<&str>,
    image_url: Option<&str>,
    data: Option<&str>,
    media_type: Option<&str>,
    payload: Option<ImagePayload>,
)
    requires
        call_ensures(describe_image, (url, image_url, data, media_type), payload),
    ensures
        payload is Some <==> url is Some || image_url is Some || data is Some,
        payload is Some ==> payload->0.detail is None,
        url matches Some(held) ==> payload->0.url@ == held@,
        url is None && image_url is Some ==> payload->0.url@ == image_url->0@,
        url is None && image_url is None && data is Some && media_type is Some ==> payload->0.url@
            == "data:"@ + media_type->0@ + ";base64,"@ + data->0@,
        url is None && image_url is None && data is Some && media_type is None ==> payload->0.url@
            == "data:"@ + "application/octet-stream"@ + ";base64,"@ + data->0@,
{
}

/// An image is described by an object of exactly its parts, with null for a part that is not
/// given, and a raw one by itself. Its text is the text of that value.
pub proof fn law_images_are_described_by_their_parts(
    source: ImageSource,
    value: Value,
    text: String,
)
    requires
        call_ensures(image_source_value, (&source,), value),
        call_ensures(image_source_text, (&source,), text),
    ensures
        text@ == json_text(json_view(value)),
        source matches ImageSource::Url { url, detail } ==> {
            &&& json_view(value) is Object
            &&& forall|key: Seq<char>| #[trigger]
                json_view(value)->Object_0.contains_key(key) <==> key == "url"@ || key
                    == "detail"@
            &&& json_view(value)->Object_0["url"@] == JsonView::Text(url@)
            &&& detail is None ==> json_view(value)->Object_0["detail"@] == JsonView::Null
            &&& detail is Some ==> json_view(value)->Object_0["detail"@] == JsonView::Text(
                detail->0@,
            )
        },
        source matches ImageSource::Base64 { media_type, data } ==> {
            &&& json_view(value) is Object
            &&& forall|key: Seq<char>| #[trigger]
                json_view(value)->Object_0.contains_key(key) <==> key == "media_type"@ || key
                    == "data"@
            &&& json_view(value)->Object_0["data"@] == JsonView::Text(data@)
            &&& media_type is None ==> json_view(value)->Object_0["media_type"@] == JsonView::Null
            &&& media_type is Some ==> json_view(value)->Object_0["media_type"@] == JsonView::Text(
                media_type->0@,
            )
        },
        source matches ImageSource::Raw(raw) ==> json_view(value) == json_view(raw),
{
    reveal_strlit("url");
    reveal_strlit("detail");
    reveal_strlit("media_type");
    reveal_strlit("data");
    assert("url"@.len() == 3 && "detail"@.len() == 6);
    assert("media_type"@.len() == 10 && "data"@.len() == 4);
}

/// A file that the provider stores is sent by its ID and nothing else.
pub proof fn law_stored_files_are_sent_by_id(
    file_id: String,
    payload: Option<serde_json::Map<String, Value>>,
)
    requires
        call_ensures(file_payload, (&FileSource::FileId(file_id),), payload),
    ensures
        payload is Some,
        forall|key: Seq<char>| #[trigger]
            json_fields(payload->0).contains_key(key) <==> key == "file_id"@,
        json_fields(payload->0)["file_id"@] == JsonView::Text(file_id@),
{
}

/// File data is always sent, with its name exactly where that is known, and nothing else.
pub proof fn law_file_data_is_sent(
    data: String,
    filename: Option<String>,
    payload: Option<serde_json::Map<String, Value>>,
)
    requires
        call_ensures(file_payload, (&FileSource::FileData { data, filename },), payload),
    ensures
        payload is Some,
        forall|key: Seq<char>| #[trigger]
            json_fields(payload->0).contains_key(key) <==> key == "file_data"@ || (filename is Some
                && key == "filename"@),
        json_fields(payload->0)["file_data"@] == JsonView::Text(data@),
        filename is Some ==> json_fields(payload->0)["filename"@] == JsonView::Text(
            filename->0@,
        ),
{
    reveal_strlit("file_data");
    reveal_strlit("filename");
    assert("file_data"@.len() == 9 && "filename"@.len() == 8);
}

/// File data by itself is written in the same way.
pub proof fn law_written_file_data(
    data: &str,
    filename: Option<&str>,
    payload: serde_json::Map<String, Value>,
)
    requires
        call_ensures(file_data_payload, (data, filename), payload),
    ensures
        forall|key: Seq<char>| #[trigger]
            json_fields(payload).contains_key(key) <==> key == "file_data"@ || (filename is Some
                && key == "filename"@),
        json_fields(payload)["file_data"@] == JsonView::Text(data@),
        filename is Some ==> json_fields(payload)["filename"@] == JsonView::Text(filename->0@),
{
    reveal_strlit("file_data");
    reveal_strlit("filename");
    assert("file_data"@.len() == 9 && "filename"@.len() == 8);
}

/// A raw file is sent exactly if it is a document block whose source is base64 with data. What is
/// sent is the data, and the block's title as the name where it has one, and nothing else.
pub proof fn law_documents_are_sent_as_file_data(
    raw: Value,
    payload: Option<serde_json::Map<String, Value>>,
)
    requires
        call_ensures(file_payload, (&FileSource::Raw(raw),), payload),
    ensures
        !(json_view(raw) is Object) ==> payload is None,
        json_view(raw) matches JsonView::Object(block) ==> {
            &&& payload is Some <==> {
                &&& holds(block, "type"@, JsonView::Text("document"@))
                &&& block.contains_key("source"@)
                &&& block["source"@] is Object
                &&& holds(block["source"@]->Object_0, "type"@, JsonView::Text("base64"@))
                &&& block["source"@]->Object_0.contains_key("data"@)
                &&& block["source"@]->Object_0["data"@] is Text
            }
            &&& payload is Some ==> {
                &&& forall|key: Seq<char>| #[trigger]
                    json_fields(payload->0).contains_key(key) <==> key == "file_data"@ || (key
                        == "filename"@ && block.contains_key("title"@) && block["title"@] is Text)
                &&& json_fields(payload->0)["file_data"@] == block["source"@]->Object_0["data"@]
                &&& block.contains_key("title"@) && block["title"@] is Text ==> json_fields(
                    payload->0,
                )["filename"@] == block["title"@]
            }
        },
{
    reveal_strlit("file_data");
    reveal_strlit("filename");
    assert("file_data"@.len() == 9 && "filename"@.len() == 8);
}

/// A file is described by an object of exactly its parts, with null for a name that is not given,
/// and a raw one by itself. Its text is the text of that value.
pub proof fn law_files_are_described_by_their_parts(source: FileSource, value: Value, text: String)
    requires
        call_ensures(file_source_value, (&source,), value),
        call_ensures(file_source_text, (&source,), text),
    ensures
        text@ == json_text(json_view(value)),
        source matches FileSource::FileId(file_id) ==> {
            &&& json_view(value) is Object
            &&& forall|key: Seq<char>| #[trigger]
                json_view(value)->Object_0.contains_key(key) <==> key == "file_id"@
            &&& json_view(value)->Object_0["file_id"@] == JsonView::Text(file_id@)
        },
        source matches FileSource::FileData { data, filename } ==> {
            &&& json_view(value) is Object
            &&& forall|key: Seq<char>| #[trigger]
                json_view(value)->Object_0.contains_key(key) <==> key == "file_data"@ || key
                    == "filename"@
            &&& json_view(value)->Object_0["file_data"@] == JsonView::Text(data@)
            &&& filename is None ==> json_view(value)->Object_0["filename"@] == JsonView::Null
            &&& filename is Some ==> json_view(value)->Object_0["filename"@] == JsonView::Text(
                filename->0@,
            )
        },
        source matches FileSource::Raw(raw) ==> json_view(value) == json_view(raw),
{
    reveal_strlit("file_data");
    reveal_strlit("filename");
    assert("file_data"@.len() == 9 && "filename"@.len() == 8);
}

} // verus!
