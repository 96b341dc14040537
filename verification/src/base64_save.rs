//! The decisions of the base64 downloads: which data URL a step saves,
//! what it decodes, where the file goes, and what it reports.
use vstd::prelude::*;

use crate::download::str_at;
use crate::error::{message_of, CliError};
use crate::json::{
    get_field, insert_field, json_get, json_view, lemma_view_items_index, lemma_view_items_len,
    set_field, view_fields, view_items, Json, JsonValue,
};
use crate::json_text::{json_serialized, json_text};
use crate::kv_steps::opt_view;
use crate::text::{
    chars_of, find_char, index_of_char, slice_chars, str_starts_with, starts_with, string_of,
    u128_text, decimal,
};

verus! {

/// The error `base64` reports for input it cannot decode.
#[verifier::external_type_specification]
#[verifier::external_body]
pub struct ExDecodeError(base64::DecodeError);

/// What the standard base64 engine (with padding) decodes a text's bytes
/// to: nothing when it refuses them. It depends on the text alone.
pub uninterp spec fn base64_decoded(text: Seq<char>) -> Option<Seq<u8>>;

/// Calls `Engine::decode` of `base64::engine::general_purpose::STANDARD`
/// on the text's bytes; the outcome is named `base64_decoded`.
#[verifier::external_body]
fn decode_base64(text: &str) -> (r: Result<Vec<u8>, base64::DecodeError>)
    ensures
        match r {
            Ok(b) => base64_decoded(text@) == Some(b@),
            Err(_) => base64_decoded(text@) is None,
        },
{
    base64::Engine::decode(&base64::engine::general_purpose::STANDARD, text)
}

/// The text `base64::DecodeError` displays; nothing is claimed of it.
#[verifier::external_body]
fn decode_error_text(e: &base64::DecodeError) -> String {
    format!("{}", e)
}

/// The base64 text of a data URL: what follows its first comma, or all of
/// it when there is none.
pub open spec fn payload_of(source: Seq<char>) -> Seq<char> {
    let i = index_of_char(source, ',');
    if i < source.len() {
        source.skip(i + 1)
    } else {
        source
    }
}

/// The base64 text of a data URL.
pub fn base64_payload(source: &str) -> (r: String)
    ensures
        r@ == payload_of(source@),
{
    let v = chars_of(source);
    let i = find_char(&v, ',', 0);
    assert(v@.skip(0) =~= v@);
    if i < v.len() {
        let n = v.len();
        let rest = slice_chars(&v, i + 1, n);
        assert(rest@ =~= v@.skip(i + 1));
        string_of(&rest)
    } else {
        source.to_owned()
    }
}

/// Decodes the base64 text of a data URL; a refusal is a pipeline error
/// that starts `base64 decode failed: `.
pub fn decode_data_url(source: &str) -> (r: Result<Vec<u8>, CliError>)
    ensures
        match r {
            Ok(b) => base64_decoded(payload_of(source@)) == Some(b@),
            Err(e) => base64_decoded(payload_of(source@)) is None && e is Pipeline && starts_with(
                message_of(e),
                "base64 decode failed: "@,
            ),
        },
{
    let payload = base64_payload(source);
    match decode_base64(payload.as_str()) {
        Ok(b) => Ok(b),
        Err(e) => {
            let mut msg = String::from_str("base64 decode failed: ");
            let ghost head = msg@;
            msg.append(decode_error_text(&e).as_str());
            assert(msg@.take(head.len() as int) =~= head);
            Err(CliError::pipeline(msg.as_str()))
        },
    }
}

/// The item a single base64 save reads from: the first element of an
/// array, or the data itself.
pub open spec fn first_item(data: Json) -> Option<Json> {
    match data {
        Json::Array(items) => if items.len() > 0 {
            Some(items[0])
        } else {
            None
        },
        _ => Some(data),
    }
}

/// A string field of the first item.
pub open spec fn item_text(data: Json, k: Seq<char>) -> Option<Seq<char>> {
    match first_item(data) {
        Some(item) => str_at(item, k),
        None => None,
    }
}

fn first_item_text(data: &JsonValue, k: &str) -> (r: Option<String>)
    ensures
        opt_view(r) == item_text(data@, k@),
{
    let item: Option<&JsonValue> = match data {
        JsonValue::Array(items) => {
            proof {
                lemma_view_items_len(items@);
            }
            if items.len() > 0 {
                proof {
                    lemma_view_items_index(items@, 0);
                }
                Some(&items[0])
            } else {
                None
            }
        },
        _ => Some(data),
    };
    match item {
        Some(it) => match get_field(it, k) {
            Some(JsonValue::String(s)) => Some(s.clone()),
            _ => None,
        },
        None => None,
    }
}

/// The data URL a single base64 save decodes: the (rendered) `source`
/// parameter, else the first item's `response`.
pub open spec fn source_of(source: Option<Seq<char>>, data: Json) -> Option<Seq<char>> {
    match source {
        Some(s) => Some(s),
        None => item_text(data, "response"@),
    }
}

/// Finds the data URL a single base64 save decodes.
pub fn base64_source(source: Option<String>, data: &JsonValue) -> (r: Result<String, CliError>)
    ensures
        match r {
            Ok(s) => source_of(opt_view(source), data@) == Some(s@),
            Err(e) => source_of(opt_view(source), data@) is None && e is Pipeline && message_of(e)
                == "download base64: no source data URL found"@,
        },
{
    match source {
        Some(s) => Ok(s),
        None => match first_item_text(data, "response") {
            Some(s) => Ok(s),
            None => Err(CliError::pipeline("download base64: no source data URL found")),
        },
    }
}

/// The record a base64 save reports: `[{"response": .., "size": ..}]`.
pub open spec fn response_record(response: Seq<char>, size: Seq<char>) -> Json {
    Json::Array(seq![Json::Object(seq![("response"@, Json::Str(response)), ("size"@, Json::Str(size))])])
}

/// The record of a base64 save: its response and size.
pub fn base64_record(response: &str, size: &str) -> (r: JsonValue)
    ensures
        r@ == response_record(response@, size@),
{
    let mut f: Vec<(String, JsonValue)> = Vec::new();
    f.push((String::from_str("response"), JsonValue::String(response.to_owned())));
    f.push((String::from_str("size"), JsonValue::String(size.to_owned())));
    let mut items: Vec<JsonValue> = Vec::new();
    items.push(JsonValue::Object(f));
    proof {
        reveal_with_fuel(view_fields, 3);
        reveal_with_fuel(view_items, 2);
        assert(view_fields(f@) =~= seq![("response"@, Json::Str(response@)), ("size"@, Json::Str(size@))]);
        assert(view_items(items@) =~= seq![json_view(items@[0])]);
    }
    JsonValue::Array(items)
}

/// A source that is an upstream error message (it starts with `[`) is
/// passed on as the response, with no size.
pub fn base64_passthrough(source: &str) -> (r: Option<JsonValue>)
    ensures
        match r {
            Some(v) => starts_with(source@, "["@) && v@ == response_record(source@, "-"@),
            None => !starts_with(source@, "["@),
        },
{
    if str_starts_with(source, "[") {
        Some(base64_record(source, "-"))
    } else {
        None
    }
}

/// The directory a base64 save writes to: the (rendered) `output`
/// parameter when it is not empty, else `{home}/Downloads`.
pub open spec fn save_dir_of(output: Option<Seq<char>>, home: Seq<char>) -> Seq<char> {
    match output {
        Some(o) => if o.len() > 0 {
            o
        } else {
            home + "/Downloads"@
        },
        None => home + "/Downloads"@,
    }
}

/// The directory a base64 save writes to.
pub fn base64_save_dir(output: Option<String>, home: &str) -> (r: String)
    ensures
        r@ == save_dir_of(opt_view(output), home@),
{
    match output {
        Some(o) => if o.as_str().unicode_len() > 0 {
            return o;
        },
        None => {},
    }
    let mut s = String::from_str(home);
    s.append("/Downloads");
    s
}

/// The file a single base64 save writes: the (rendered) `filename`
/// parameter, else the first item's `filename`, else `image_{now}.png`.
pub open spec fn save_name_of(filename: Option<Seq<char>>, data: Json, now_secs: u64) -> Seq<char> {
    match filename {
        Some(f) => f,
        None => match item_text(data, "filename"@) {
            Some(f) => f,
            None => "image_"@ + decimal(now_secs as nat) + ".png"@,
        },
    }
}

/// The file a single base64 save writes.
pub fn base64_file_name(filename: Option<String>, data: &JsonValue, now_secs: u64) -> (r: String)
    ensures
        r@ == save_name_of(opt_view(filename), data@, now_secs),
{
    match filename {
        Some(f) => f,
        None => match first_item_text(data, "filename") {
            Some(f) => f,
            None => {
                let mut s = String::from_str("image_");
                s.append(u128_text(now_secs as u128).as_str());
                s.append(".png");
                s
            },
        },
    }
}

/// The path a file is written to in a directory: `{dir}/{name}`.
pub fn path_in(dir: &str, name: &str) -> (r: String)
    ensures
        r@ == dir@ + "/"@ + name@,
{
    let mut s = String::from_str(dir);
    s.append("/");
    s.append(name);
    s
}

// ---------------------------------------------------------------------------
// Batches
// ---------------------------------------------------------------------------

/// The images a batch save reads: the elements of `images`.
pub open spec fn batch_images_of(data: Json) -> Seq<Json> {
    match json_get(data, "images"@) {
        Some(Json::Array(items)) => items,
        _ => Seq::empty(),
    }
}

/// The images of a batch save.
pub fn batch_images(data: &JsonValue) -> (r: Vec<JsonValue>)
    ensures
        view_items(r@) == batch_images_of(data@),
{
    assert(view_items(Seq::<JsonValue>::empty()) =~= Seq::<Json>::empty());
    match get_field(data, "images") {
        Some(v) => match v.deep_clone() {
            JsonValue::Array(items) => items,
            _ => Vec::new(),
        },
        None => Vec::new(),
    }
}

/// A three-field record `{"filename", "status", "size"}`.
pub open spec fn status_record(filename: Seq<char>, status: Seq<char>, size: Seq<char>) -> Json {
    Json::Object(
        seq![
            ("filename"@, Json::Str(filename)),
            ("status"@, Json::Str(status)),
            ("size"@, Json::Str(size)),
        ],
    )
}

/// A record of one file of a batch save.
pub fn status_entry(filename: &str, status: &str, size: &str) -> (r: JsonValue)
    ensures
        r@ == status_record(filename@, status@, size@),
{
    let mut f: Vec<(String, JsonValue)> = Vec::new();
    f.push((String::from_str("filename"), JsonValue::String(filename.to_owned())));
    f.push((String::from_str("status"), JsonValue::String(status.to_owned())));
    f.push((String::from_str("size"), JsonValue::String(size.to_owned())));
    proof {
        reveal_with_fuel(view_fields, 4);
        assert(view_fields(f@) =~= seq![
            ("filename"@, Json::Str(filename@)),
            ("status"@, Json::Str(status@)),
            ("size"@, Json::Str(size@)),
        ]);
    }
    JsonValue::Object(f)
}

/// What a batch save makes of one image: its file name, and its decoded
/// bytes or the record of why it has none.
#[derive(Debug)]
pub enum BatchImage {
    Decoded { filename: String, bytes: Vec<u8> },
    Failed { record: JsonValue },
}

/// The file name of a batch image: its `filename`, else `image.png`.
pub open spec fn image_name_of(item: Json) -> Seq<char> {
    match str_at(item, "filename"@) {
        Some(f) => f,
        None => "image.png"@,
    }
}

/// The data URL of a batch image: its `response`, else empty.
pub open spec fn image_response_of(item: Json) -> Seq<char> {
    match str_at(item, "response"@) {
        Some(r) => r,
        None => Seq::empty(),
    }
}

/// Whether a decision fits an image: no data URL fails with `No base64
/// data`; a data URL that does not decode fails with a `Decode error`;
/// otherwise the bytes are what decoding gives.
pub open spec fn batch_image_fits(b: BatchImage, item: Json) -> bool {
    let name = image_name_of(item);
    let resp = image_response_of(item);
    match b {
        BatchImage::Decoded { filename, bytes } => resp.len() > 0 && filename@ == name
            && base64_decoded(payload_of(resp)) == Some(bytes@),
        BatchImage::Failed { record } => if resp.len() == 0 {
            record@ == status_record(name, "failed"@, "No base64 data"@)
        } else {
            base64_decoded(payload_of(resp)) is None && exists|msg: Seq<char>|
                record@ == status_record(name, "failed"@, "Decode error: "@ + msg)
        },
    }
}

/// Decodes one image of a batch save.
pub fn batch_image(item: &JsonValue) -> (r: BatchImage)
    ensures
        batch_image_fits(r, item@),
{
    let filename = match get_field(item, "filename") {
        Some(JsonValue::String(s)) => s.clone(),
        _ => String::from_str("image.png"),
    };
    let response = match get_field(item, "response") {
        Some(JsonValue::String(s)) => s.clone(),
        _ => String::new(),
    };
    if response.as_str().unicode_len() == 0 {
        return BatchImage::Failed { record: status_entry(filename.as_str(), "failed", "No base64 data") };
    }
    let payload = base64_payload(response.as_str());
    match decode_base64(payload.as_str()) {
        Ok(bytes) => BatchImage::Decoded { filename, bytes },
        Err(e) => {
            let detail = decode_error_text(&e);
            let mut size = String::from_str("Decode error: ");
            size.append(detail.as_str());
            let record = status_entry(filename.as_str(), "failed", size.as_str());
            assert(record@ == status_record(image_name_of(item@), "failed"@, "Decode error: "@ + detail@));
            BatchImage::Failed { record }
        },
    }
}

/// The result of a batch save: the data's fields (none unless it is an
/// object) with `download_results`, or a `no images` record when there are
/// none.
pub open spec fn batch_outcome(data: Json, results: Seq<Json>) -> Json {
    let base = match data {
        Json::Object(f) => f,
        _ => Seq::empty(),
    };
    let list = if results.len() == 0 {
        Json::Array(seq![status_record("-"@, "no images"@, "-"@)])
    } else {
        Json::Array(results)
    };
    Json::Object(insert_field(base, "download_results"@, list))
}

/// Wraps up a batch save.
pub fn finish_base64_batch(data: &JsonValue, results: Vec<JsonValue>) -> (r: JsonValue)
    ensures
        r@ == batch_outcome(data@, view_items(results@)),
{
    let mut fields: Vec<(String, JsonValue)> = match data.deep_clone() {
        JsonValue::Object(f) => f,
        _ => Vec::new(),
    };
    proof {
        assert(view_fields(Seq::<(String, JsonValue)>::empty()) =~= Seq::<(Seq<char>, Json)>::empty());
        lemma_view_items_len(results@);
    }
    let list = if results.len() == 0 {
        let mut items: Vec<JsonValue> = Vec::new();
        items.push(status_entry("-", "no images", "-"));
        proof {
            reveal_with_fuel(view_items, 2);
            assert(view_items(items@) =~= seq![json_view(items@[0])]);
        }
        JsonValue::Array(items)
    } else {
        JsonValue::Array(results)
    };
    set_field(&mut fields, String::from_str("download_results"), list);
    JsonValue::Object(fields)
}

/// The result of a batch save with no images: array data is passed on;
/// anything else fails with a record that shows the data's JSON text.
pub open spec fn empty_batch_outcome(data: Json, data_text: Seq<char>) -> Json {
    match data {
        Json::Array(_) => data,
        _ => Json::Array(
            seq![
                status_record(
                    "-"@,
                    "failed"@,
                    "No images to download. Data structure: "@ + data_text,
                ),
            ],
        ),
    }
}

/// The result of a batch save that found no images; the data shows as
/// its JSON text.
pub fn empty_base64_batch(data: &JsonValue) -> (r: JsonValue)
    ensures
        r@ == empty_batch_outcome(data@, json_serialized(data@)),
{
    match data {
        JsonValue::Array(_) => data.deep_clone(),
        _ => {
            let data_text = json_text(data);
            let mut size = String::from_str("No images to download. Data structure: ");
            size.append(data_text.as_str());
            let mut items: Vec<JsonValue> = Vec::new();
            items.push(status_entry("-", "failed", size.as_str()));
            proof {
                reveal_with_fuel(view_items, 2);
                assert(view_items(items@) =~= seq![json_view(items@[0])]);
            }
            JsonValue::Array(items)
        },
    }
}

} // verus!
