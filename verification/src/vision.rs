//! The multimodal tools: image analysis by a vision model, audio
//! transcription by Whisper, and extraction of schema-shaped JSON from text.
//!
//! The library plans each request (its body, its form) and words each
//! result; the HTTP exchange with the model provider is the caller's.

use vstd::prelude::*;

use crate::json::{
    json_as_str, json_at, json_get, json_pretty_text, json_pretty_text_of, json_text, json_text_of,
    json_view, parse_json, parsed_json_of, JsonValue, JsonView,
};
use crate::schema::{
    array, enum_prop, enum_property, member, num, number, object, object_schema, object_schema_of,
    props_view, typed_prop, typed_property,
};
use crate::text::{
    chars_of, concat_str, decimal, has_prefix, lowercase, starts_with, string_of,
    to_lowercase, trim, trimmed,
};
use crate::tools::{
    file_name_of, opt_text, path_file_name, result_is, str_arg, str_arg_or, string_arg,
    string_arg_or, bool_arg, flag_arg, EncodedImage, ToolResult,
};

verus! {

broadcast use vstd::string::group_string_axioms;

// ── Chat completion replies ──────────────────────────────────────────────────

/// What came back from a chat-completion request.
#[derive(Debug)]
pub enum ChatReply {
    /// The request could not be sent.
    SendFailed(String),
    /// The reply was not JSON.
    Unparsable(String),
    /// The reply document.
    Body(JsonValue),
}

/// The text of the first choice's message: `choices[0].message.content`.
pub open spec fn chat_content(body: JsonValue) -> Option<Seq<char>> {
    match json_get(body, "choices"@) {
        Some(c) => match json_at(c, 0) {
            Some(first) => match json_get(first, "message"@) {
                Some(m) => match json_get(m, "content"@) {
                    Some(t) => json_as_str(t),
                    None => None,
                },
                None => None,
            },
            None => None,
        },
        None => None,
    }
}

/// What a chat reply yields: the first choice's text (`fallback` when it
/// has none), or the error, including an `error` member of the reply.
pub open spec fn chat_reply_spec(reply: ChatReply, fallback: Seq<char>) -> Result<Seq<char>, Seq<char>> {
    match reply {
        ChatReply::SendFailed(e) => Err("API request failed: "@ + e@),
        ChatReply::Unparsable(e) => Err("Failed to parse response: "@ + e@),
        ChatReply::Body(b) => match json_get(b, "error"@) {
            Some(err) => Err("API error: "@ + json_text_of(json_view(err))),
            None => Ok(
                match chat_content(b) {
                    Some(t) => t,
                    None => fallback,
                },
            ),
        },
    }
}

fn chat_content_of(body: &JsonValue) -> (r: Option<String>)
    ensures
        opt_text(r) == chat_content(*body),
{
    let c = match body.get("choices") {
        Some(c) => c,
        None => return None,
    };
    let first = match c.at(0) {
        Some(f) => f,
        None => return None,
    };
    let m = match first.get("message") {
        Some(m) => m,
        None => return None,
    };
    match m.get("content") {
        Some(t) => match t.as_str() {
            Some(s) => Some(s.to_string()),
            None => None,
        },
        None => None,
    }
}

fn chat_reply(reply: ChatReply, fallback: &str) -> (r: Result<String, String>)
    ensures
        match chat_reply_spec(reply, fallback@) {
            Ok(t) => r matches Ok(x) && x@ == t,
            Err(e) => r matches Err(x) && x@ == e,
        },
{
    match reply {
        ChatReply::SendFailed(e) => Err(concat_str("API request failed: ", e.as_str())),
        ChatReply::Unparsable(e) => Err(concat_str("Failed to parse response: ", e.as_str())),
        ChatReply::Body(b) => match b.get("error") {
            Some(err) => Err(concat_str("API error: ", json_text(err).as_str())),
            None => match chat_content_of(&b) {
                Some(t) => Ok(t),
                None => Ok(fallback.to_string()),
            },
        },
    }
}

// ── Vision ───────────────────────────────────────────────────────────────────

/// The arguments of an image analysis.
#[derive(Debug, Clone, PartialEq, Eq)]
pub struct VisionInput {
    /// Local file path or URL of the image.
    pub source: String,
    /// Question or instruction about the image.
    pub prompt: Option<String>,
    /// Detail level of the analysis.
    pub detail: Option<String>,
}

/// An image analysis ready to run.
#[derive(Debug, Clone, PartialEq, Eq)]
pub struct VisionPlan {
    /// Local file path or URL of the image.
    pub source: String,
    /// The instruction sent with the image.
    pub prompt: String,
    /// The detail level.
    pub detail: String,
    /// The image is fetched over HTTP rather than read from disk.
    pub remote: bool,
}

/// The OpenAI content part carrying `img` at `detail` (see
/// [`EncodedImage::to_openai_part`]).
pub open spec fn openai_part_view(img: EncodedImage, detail: Seq<char>) -> JsonView {
    JsonView::Object(
        seq![
            (
                "image_url"@,
                JsonView::Object(
                    seq![
                        ("detail"@, JsonView::Str(detail)),
                        ("url"@, JsonView::Str("data:"@ + img.mime_type@ + ";base64,"@ + img.data@)),
                    ],
                ),
            ),
            ("type"@, JsonView::Str("image_url"@)),
        ],
    )
}

/// The chat request asking `model` about an image (`part`) with `prompt`.
pub open spec fn vision_request_view(model: Seq<char>, prompt: Seq<char>, part: JsonView) -> JsonView {
    JsonView::Object(
        seq![
            ("max_tokens"@, num(1024)),
            (
                "messages"@,
                JsonView::Array(
                    seq![
                        JsonView::Object(
                            seq![
                                (
                                    "content"@,
                                    JsonView::Array(
                                        seq![
                                            JsonView::Object(
                                                seq![
                                                    ("text"@, JsonView::Str(prompt)),
                                                    ("type"@, JsonView::Str("text"@)),
                                                ],
                                            ),
                                            part,
                                        ],
                                    ),
                                ),
                                ("role"@, JsonView::Str("user"@)),
                            ],
                        ),
                    ],
                ),
            ),
            ("model"@, JsonView::Str(model)),
        ],
    )
}

/// The parameters of [`VisionTool`].
pub open spec fn vision_schema() -> JsonView {
    object_schema(
        seq![
            ("detail"@, enum_prop("Detail level for analysis (default: auto)"@, seq!["low"@, "high"@, "auto"@])),
            ("prompt"@, typed_prop("string"@, "Question or instruction about the image. Defaults to 'Describe this image in detail.'"@)),
            ("source"@, typed_prop("string"@, "Local file path or URL of the image to analyze"@)),
        ],
        seq!["source"@],
    )
}

/// Analyses an image (a local file or a URL) with a vision-capable model.
#[derive(Debug, Clone, PartialEq, Eq)]
pub struct VisionTool {
    /// The provider's API key.
    pub api_key: String,
    /// The model asked.
    pub model: String,
    /// The chat-completions endpoint.
    pub base_url: String,
}

impl VisionTool {
    /// The tool with `api_key`, asking `gpt-5.4` at OpenAI's endpoint.
    pub fn new(api_key: String) -> (t: Self)
        ensures
            t.api_key == api_key,
            t.model@ == "gpt-5.4"@,
            t.base_url@ == "https://api.openai.com/v1/chat/completions"@,
    {
        VisionTool {
            api_key,
            model: "gpt-5.4".to_string(),
            base_url: "https://api.openai.com/v1/chat/completions".to_string(),
        }
    }

    /// The tool asking `model`.
    pub fn with_model(self, model: String) -> (t: Self)
        ensures
            t == (VisionTool { model, ..self }),
    {
        VisionTool { model, ..self }
    }

    /// The tool sending to the endpoint `url`.
    pub fn with_base_url(self, url: String) -> (t: Self)
        ensures
            t == (VisionTool { base_url: url, ..self }),
    {
        VisionTool { base_url: url, ..self }
    }

    pub fn name(&self) -> (s: &'static str)
        ensures
            s@ == "vision_analyze"@,
    {
        "vision_analyze"
    }

    pub fn description(&self) -> (s: &'static str)
        ensures
            s@ == "Analyze an image from a local file path or URL. Returns a detailed description or answers a specific question about the image. Supports JPEG, PNG, WebP, GIF, and BMP formats."@,
    {
        "Analyze an image from a local file path or URL. Returns a detailed description or answers a specific question about the image. Supports JPEG, PNG, WebP, GIF, and BMP formats."
    }

    /// The JSON Schema of the tool's parameters (see [`vision_schema`]).
    pub fn parameters_schema(&self) -> (v: JsonValue)
        ensures
            json_view(v) == vision_schema(),
    {
        let levels: &[&str] = &["low", "high", "auto"];
        let props = vec![
            member("detail", enum_property("Detail level for analysis (default: auto)", levels)),
            member("prompt", typed_property("string", "Question or instruction about the image. Defaults to 'Describe this image in detail.'")),
            member("source", typed_property("string", "Local file path or URL of the image to analyze")),
        ];
        let required: &[&str] = &["source"];
        assert(levels@.map_values(|n: &str| n@) =~= seq!["low"@, "high"@, "auto"@]);
        assert(props_view(props@) =~= seq![
            ("detail"@, enum_prop("Detail level for analysis (default: auto)"@, seq!["low"@, "high"@, "auto"@])),
            ("prompt"@, typed_prop("string"@, "Question or instruction about the image. Defaults to 'Describe this image in detail.'"@)),
            ("source"@, typed_prop("string"@, "Local file path or URL of the image to analyze"@)),
        ]);
        assert(required@.map_values(|n: &str| n@) =~= seq!["source"@]);
        object_schema_of(props, required)
    }

    /// The error result for arguments that do not form a [`VisionInput`].
    pub fn invalid_arguments(reason: &str) -> (r: ToolResult)
        ensures
            result_is(r, Err("Invalid arguments: "@ + reason@)),
    {
        ToolResult::err(concat_str("Invalid arguments: ", reason))
    }

    /// The analysis `input` asks for: the prompt defaults to a detailed
    /// description, the detail level to `auto`; a `http://` or `https://`
    /// source is fetched, any other is read from disk.
    pub fn plan(input: VisionInput) -> (p: VisionPlan)
        ensures
            p.source == input.source,
            p.prompt@ == match input.prompt {
                Some(t) => t@,
                None => "Describe this image in detail."@,
            },
            p.detail@ == match input.detail {
                Some(d) => d@,
                None => "auto"@,
            },
            p.remote == (starts_with(input.source@, "http://"@) || starts_with(
                input.source@,
                "https://"@,
            )),
    {
        let c = chars_of(input.source.as_str());
        let remote = has_prefix(&c, &chars_of("http://")) || has_prefix(&c, &chars_of("https://"));
        VisionPlan {
            source: input.source,
            prompt: match input.prompt {
                Some(t) => t,
                None => "Describe this image in detail.".to_string(),
            },
            detail: match input.detail {
                Some(d) => d,
                None => "auto".to_string(),
            },
            remote,
        }
    }

    /// The error result when the image could not be fetched (`remote`) or
    /// read.
    pub fn image_failure(remote: bool, reason: &str) -> (r: ToolResult)
        ensures
            result_is(
                r,
                Err(
                    if remote {
                        "Failed to fetch image: "@ + reason@
                    } else {
                        "Failed to read image: "@ + reason@
                    },
                ),
            ),
    {
        if remote {
            ToolResult::err(concat_str("Failed to fetch image: ", reason))
        } else {
            ToolResult::err(concat_str("Failed to read image: ", reason))
        }
    }

    /// The chat request asking the model about `image` with `prompt`, at
    /// `detail`, in at most 1024 tokens.
    pub fn request_body(&self, prompt: &str, image: &EncodedImage, detail: &str) -> (v: JsonValue)
        ensures
            json_view(v) == vision_request_view(self.model@, prompt@, openai_part_view(*image, detail@)),
    {
        let part = image.to_openai_part(detail);
        let ghost pv = json_view(part);
        let ft = vec![
            member("text", JsonValue::String(prompt.to_string())),
            member("type", JsonValue::String("text".to_string())),
        ];
        let text = object(ft);
        assert(props_view(ft@) =~= seq![("text"@, JsonView::Str(prompt@)), ("type"@, JsonView::Str("text"@))]);
        let ghost tv = json_view(text);
        let items = vec![text, part];
        assert(items@.map_values(|x: JsonValue| json_view(x)) =~= seq![tv, pv]);
        let content = array(items);
        let ghost cv = json_view(content);
        let f1 = vec![member("content", content), member("role", JsonValue::String("user".to_string()))];
        let message = object(f1);
        let ghost mv = json_view(message);
        assert(props_view(f1@) =~= seq![("content"@, cv), ("role"@, JsonView::Str("user"@))]);
        let ms = vec![message];
        assert(ms@.map_values(|x: JsonValue| json_view(x)) =~= seq![mv]);
        let messages = array(ms);
        let ghost msv = json_view(messages);
        let f = vec![
            member("max_tokens", number(1024)),
            member("messages", messages),
            member("model", JsonValue::String(self.model.clone())),
        ];
        let v = object(f);
        assert(props_view(f@) =~= seq![
            ("max_tokens"@, num(1024)),
            ("messages"@, msv),
            ("model"@, JsonView::Str(self.model@)),
        ]);
        v
    }

    /// The result of the analysis: the model's description (`No description
    /// returned` when the reply has none), or why it failed.
    pub fn reply_result(reply: ChatReply) -> (r: ToolResult)
        ensures
            result_is(r, chat_reply_spec(reply, "No description returned"@)),
    {
        match chat_reply(reply, "No description returned") {
            Ok(t) => ToolResult::ok(t),
            Err(e) => ToolResult::err(e),
        }
    }
}

// ── Audio transcription ──────────────────────────────────────────────────────

/// The text after the last `.` of `name` (all of it when it has none).
pub open spec fn after_last_dot(name: Seq<char>) -> Seq<char>
    decreases name.len(),
{
    if name.len() == 0 {
        name
    } else if name.last() == '.' {
        seq![]
    } else {
        after_last_dot(name.drop_last()).push(name.last())
    }
}

/// The audio MIME type of a file name, by the lowercased text after its
/// last dot (MPEG audio by default).
pub open spec fn whisper_mime_for(file_name: Seq<char>) -> Seq<char> {
    let e = lowercase(after_last_dot(file_name));
    if e == "mp3"@ {
        "audio/mpeg"@
    } else if e == "mp4"@ {
        "audio/mp4"@
    } else if e == "wav"@ {
        "audio/wav"@
    } else if e == "flac"@ {
        "audio/flac"@
    } else if e == "ogg"@ {
        "audio/ogg"@
    } else if e == "webm"@ {
        "audio/webm"@
    } else if e == "m4a"@ {
        "audio/mp4"@
    } else {
        "audio/mpeg"@
    }
}

fn after_last_dot_of(name: &[char]) -> (r: Vec<char>)
    ensures
        r@ == after_last_dot(name@),
{
    let mut i: usize = name.len();
    assert(name@.take(name@.len() as int) =~= name@);
    assert(name@.skip(name@.len() as int) =~= Seq::<char>::empty());
    while i > 0 && name[i - 1] != '.'
        invariant
            i <= name.len(),
            after_last_dot(name@) == after_last_dot(name@.take(i as int)) + name@.skip(i as int),
        decreases i,
    {
        let ghost t = name@.take(i as int);
        assert(t.drop_last() =~= name@.take(i - 1));
        assert(name@.skip(i - 1) =~= seq![name@[i - 1]] + name@.skip(i as int));
        assert(after_last_dot(t) == after_last_dot(t.drop_last()).push(t.last()));
        assert(after_last_dot(t.drop_last()).push(t.last()) + name@.skip(i as int) =~= after_last_dot(
            name@.take(i - 1),
        ) + name@.skip(i - 1));
        i = i - 1;
    }
    proof {
        if i > 0 {
            let t = name@.take(i as int);
            assert(t.last() == '.');
            assert(after_last_dot(t) == Seq::<char>::empty());
        } else {
            assert(name@.take(0) =~= Seq::<char>::empty());
        }
        assert(after_last_dot(name@) =~= name@.skip(i as int));
    }
    let mut r: Vec<char> = Vec::new();
    let mut j: usize = i;
    while j < name.len()
        invariant
            i <= j <= name.len(),
            r@ == name@.subrange(i as int, j as int),
        decreases name.len() - j,
    {
        r.push(name[j]);
        assert(r@ =~= name@.subrange(i as int, j + 1));
        j = j + 1;
    }
    assert(r@ =~= name@.skip(i as int));
    r
}

/// The multipart form of a Whisper upload.
#[derive(Debug, Clone, PartialEq, Eq)]
pub struct TranscriptionForm {
    /// The name the file part carries.
    pub file_name: String,
    /// The MIME type of the file part.
    pub mime_type: String,
    /// The model field.
    pub model: String,
    /// The `response_format` field: `verbose_json` with timestamps, else
    /// `text`.
    pub response_format: String,
    /// The `language` field, when one was asked for.
    pub language: Option<String>,
}

/// What came back from a Whisper upload.
#[derive(Debug)]
pub enum TranscriptionReply {
    /// The request could not be sent.
    SendFailed(String),
    /// A non-success status (`reason` its canonical phrase) and the body.
    Rejected { code: u16, reason: Option<String>, body: String },
    /// A success asked for with timestamps: the reply document, or why it
    /// could not be read as JSON.
    Json(Result<JsonValue, String>),
    /// A success asked for as text: the reply text, or why it could not be
    /// read.
    Text(Result<String, String>),
}

/// What a Whisper reply yields.
pub open spec fn transcription_reply_spec(reply: TranscriptionReply) -> Result<Seq<char>, Seq<char>> {
    match reply {
        TranscriptionReply::SendFailed(e) => Err("API request failed: "@ + e@),
        TranscriptionReply::Rejected { code, reason, body } => Err(
            "Whisper API error "@ + decimal(code as nat) + " "@ + match opt_text(reason) {
                Some(r) => r,
                None => "<unknown status code>"@,
            } + ": "@ + body@,
        ),
        TranscriptionReply::Json(Ok(v)) => Ok(json_pretty_text_of(json_view(v))),
        TranscriptionReply::Json(Err(e)) => Err("Failed to parse response: "@ + e@),
        TranscriptionReply::Text(Ok(t)) => Ok(trim(t@)),
        TranscriptionReply::Text(Err(e)) => Err("Failed to read response: "@ + e@),
    }
}

/// The parameters of [`AudioTranscriptionTool`].
pub open spec fn transcription_schema() -> JsonView {
    object_schema(
        seq![
            ("language"@, typed_prop("string"@, "ISO-639-1 language code (e.g. 'en', 'es', 'fr'). Auto-detected if omitted."@)),
            ("path"@, typed_prop("string"@, "Local file path of the audio file to transcribe"@)),
            ("timestamps"@, typed_prop("boolean"@, "Whether to include word-level timestamps in the output"@)),
        ],
        seq!["path"@],
    )
}

/// Transcribes an audio file with the OpenAI Whisper API.
#[derive(Debug, Clone, PartialEq, Eq)]
pub struct AudioTranscriptionTool {
    /// The provider's API key.
    pub api_key: String,
    /// The model asked.
    pub model: String,
}

impl AudioTranscriptionTool {
    /// The tool with `api_key`, asking `whisper-1`.
    pub fn new(api_key: String) -> (t: Self)
        ensures
            t.api_key == api_key,
            t.model@ == "whisper-1"@,
    {
        AudioTranscriptionTool { api_key, model: "whisper-1".to_string() }
    }

    pub fn name(&self) -> (s: &'static str)
        ensures
            s@ == "audio_transcribe"@,
    {
        "audio_transcribe"
    }

    pub fn description(&self) -> (s: &'static str)
        ensures
            s@ == "Transcribe an audio file (MP3, MP4, WAV, FLAC, OGG, WebM) to text using OpenAI Whisper. Returns the full transcript with optional timestamps."@,
    {
        "Transcribe an audio file (MP3, MP4, WAV, FLAC, OGG, WebM) to text using OpenAI Whisper. Returns the full transcript with optional timestamps."
    }

    /// The endpoint uploads go to.
    pub fn endpoint() -> (s: &'static str)
        ensures
            s@ == "https://api.openai.com/v1/audio/transcriptions"@,
    {
        "https://api.openai.com/v1/audio/transcriptions"
    }

    /// The JSON Schema of the tool's parameters (see
    /// [`transcription_schema`]).
    pub fn parameters_schema(&self) -> (v: JsonValue)
        ensures
            json_view(v) == transcription_schema(),
    {
        let props = vec![
            member("language", typed_property("string", "ISO-639-1 language code (e.g. 'en', 'es', 'fr'). Auto-detected if omitted.")),
            member("path", typed_property("string", "Local file path of the audio file to transcribe")),
            member("timestamps", typed_property("boolean", "Whether to include word-level timestamps in the output")),
        ];
        let required: &[&str] = &["path"];
        assert(props_view(props@) =~= seq![
            ("language"@, typed_prop("string"@, "ISO-639-1 language code (e.g. 'en', 'es', 'fr'). Auto-detected if omitted."@)),
            ("path"@, typed_prop("string"@, "Local file path of the audio file to transcribe"@)),
            ("timestamps"@, typed_prop("boolean"@, "Whether to include word-level timestamps in the output"@)),
        ]);
        assert(required@.map_values(|n: &str| n@) =~= seq!["path"@]);
        object_schema_of(props, required)
    }

    /// The file a call names, the language it asks for and whether it wants
    /// timestamps; the error result when it names no file.
    pub fn request(args: &JsonValue) -> (r: Result<(String, Option<String>, bool), ToolResult>)
        ensures
            match string_arg(*args, "path"@) {
                Some(p) => r matches Ok((x, l, t)) && x@ == p && opt_text(l) == string_arg(
                    *args,
                    "language"@,
                ) && t == flag_arg(*args, "timestamps"@),
                None => r matches Err(e) && result_is(e, Err("Missing required argument: path"@)),
            },
    {
        let path = match str_arg(args, "path") {
            Some(p) => p,
            None => return Err(ToolResult::err("Missing required argument: path".to_string())),
        };
        Ok((path, str_arg(args, "language"), bool_arg(args, "timestamps")))
    }

    /// The error result when the audio file could not be read.
    pub fn read_failure(reason: &str) -> (r: ToolResult)
        ensures
            result_is(r, Err("Failed to read audio file: "@ + reason@)),
    {
        ToolResult::err(concat_str("Failed to read audio file: ", reason))
    }

    /// The upload form for the file at `path`: named as its last path
    /// component (`audio.mp3` when it has none), typed by that name's
    /// extension, asking for `verbose_json` with timestamps and `text`
    /// otherwise, in `language` when one is given.
    pub fn form(&self, path: &str, language: Option<String>, timestamps: bool) -> (f: TranscriptionForm)
        ensures
            f.file_name@ == match path_file_name(path@) {
                Some(n) => n,
                None => "audio.mp3"@,
            },
            f.mime_type@ == whisper_mime_for(f.file_name@),
            f.model == self.model,
            f.response_format@ == if timestamps {
                "verbose_json"@
            } else {
                "text"@
            },
            f.language == language,
    {
        let file_name = match file_name_of(path) {
            Some(n) => n,
            None => "audio.mp3".to_string(),
        };
        let ext = after_last_dot_of(&chars_of(file_name.as_str()));
        let e = chars_of(to_lowercase(string_of(&ext).as_str()).as_str());
        let mime = if crate::text::chars_eq(&e, &chars_of("mp3")) {
            "audio/mpeg"
        } else if crate::text::chars_eq(&e, &chars_of("mp4")) {
            "audio/mp4"
        } else if crate::text::chars_eq(&e, &chars_of("wav")) {
            "audio/wav"
        } else if crate::text::chars_eq(&e, &chars_of("flac")) {
            "audio/flac"
        } else if crate::text::chars_eq(&e, &chars_of("ogg")) {
            "audio/ogg"
        } else if crate::text::chars_eq(&e, &chars_of("webm")) {
            "audio/webm"
        } else if crate::text::chars_eq(&e, &chars_of("m4a")) {
            "audio/mp4"
        } else {
            "audio/mpeg"
        };
        TranscriptionForm {
            file_name,
            mime_type: mime.to_string(),
            model: self.model.clone(),
            response_format: if timestamps {
                "verbose_json".to_string()
            } else {
                "text".to_string()
            },
            language,
        }
    }

    /// The result of the upload: the transcript (the reply document printed
    /// indented with timestamps, the trimmed text without), or why it failed.
    pub fn reply_result(reply: TranscriptionReply) -> (r: ToolResult)
        ensures
            result_is(r, transcription_reply_spec(reply)),
    {
        match reply {
            TranscriptionReply::SendFailed(e) => ToolResult::err(concat_str("API request failed: ", e.as_str())),
            TranscriptionReply::Rejected { code, reason, body } => {
                let mut m = chars_of("Whisper API error ");
                crate::text::push_decimal(&mut m, code as u64);
                m.push(' ');
                match &reason {
                    Some(r) => crate::text::extend_str(&mut m, r.as_str()),
                    None => crate::text::extend_str(&mut m, "<unknown status code>"),
                }
                crate::text::extend_str(&mut m, ": ");
                crate::text::extend_str(&mut m, body.as_str());
                proof {
                    reveal_strlit(" ");
                    let rr = match opt_text(reason) {
                        Some(r) => r,
                        None => "<unknown status code>"@,
                    };
                    assert(m@ =~= "Whisper API error "@ + decimal(code as nat) + " "@ + rr + ": "@ + body@);
                }
                ToolResult::err(string_of(&m))
            },
            TranscriptionReply::Json(Ok(v)) => ToolResult::ok(json_pretty_text(&v)),
            TranscriptionReply::Json(Err(e)) => ToolResult::err(concat_str("Failed to parse response: ", e.as_str())),
            TranscriptionReply::Text(Ok(t)) => ToolResult::ok(string_of(&trimmed(&chars_of(t.as_str())))),
            TranscriptionReply::Text(Err(e)) => ToolResult::err(concat_str("Failed to read response: ", e.as_str())),
        }
    }
}

// ── Structured output ────────────────────────────────────────────────────────

/// The chat request asking `model` to extract from `text`, following
/// `instruction`, a JSON document that strictly conforms to `schema`.
pub open spec fn structured_request_view(
    model: Seq<char>,
    text: Seq<char>,
    schema: JsonView,
    name: Seq<char>,
    instruction: Seq<char>,
) -> JsonView {
    JsonView::Object(
        seq![
            (
                "messages"@,
                JsonView::Array(
                    seq![
                        JsonView::Object(
                            seq![("content"@, JsonView::Str(instruction)), ("role"@, JsonView::Str("system"@))],
                        ),
                        JsonView::Object(
                            seq![("content"@, JsonView::Str(text)), ("role"@, JsonView::Str("user"@))],
                        ),
                    ],
                ),
            ),
            ("model"@, JsonView::Str(model)),
            (
                "response_format"@,
                JsonView::Object(
                    seq![
                        (
                            "json_schema"@,
                            JsonView::Object(
                                seq![
                                    ("name"@, JsonView::Str(name)),
                                    ("schema"@, schema),
                                    ("strict"@, JsonView::Bool(true)),
                                ],
                            ),
                        ),
                        ("type"@, JsonView::Str("json_schema"@)),
                    ],
                ),
            ),
        ],
    )
}

/// What an extraction request asks, or the error (see
/// [`StructuredOutputTool::request_body`]).
pub open spec fn structured_request_spec(model: Seq<char>, args: JsonValue) -> Result<JsonView, Seq<char>> {
    match string_arg(args, "text"@) {
        None => Err("Missing required argument: text"@),
        Some(t) => match json_get(args, "schema"@) {
            None => Err("Missing required argument: schema"@),
            Some(sc) => Ok(
                structured_request_view(
                    model,
                    t,
                    json_view(sc),
                    string_arg_or(args, "schema_name"@, "extraction_result"@),
                    string_arg_or(args, "instruction"@, "Extract the requested information from the text."@),
                ),
            ),
        },
    }
}

/// What an extraction reply yields: the model's text, printed indented when
/// it is JSON (`{}` when the reply has none), or why it failed.
pub open spec fn structured_reply_spec(reply: ChatReply) -> Result<Seq<char>, Seq<char>> {
    match chat_reply_spec(reply, "{}"@) {
        Ok(c) => Ok(
            match parsed_json_of(c) {
                Some(v) => json_pretty_text_of(v),
                None => c,
            },
        ),
        Err(e) => Err(e),
    }
}

/// The parameters of [`StructuredOutputTool`].
pub open spec fn structured_schema() -> JsonView {
    object_schema(
        seq![
            ("instruction"@, typed_prop("string"@, "Additional instruction for the extraction task"@)),
            ("schema"@, typed_prop("object"@, "JSON Schema object defining the expected output structure"@)),
            ("schema_name"@, typed_prop("string"@, "A name for the schema (used in the API request)"@)),
            ("text"@, typed_prop("string"@, "The text to extract structured data from"@)),
        ],
        seq!["text"@, "schema"@],
    )
}

/// Extracts from text a JSON document that conforms to a given schema.
#[derive(Debug, Clone, PartialEq, Eq)]
pub struct StructuredOutputTool {
    /// The provider's API key.
    pub api_key: String,
    /// The model asked.
    pub model: String,
}

impl StructuredOutputTool {
    /// The tool with `api_key`, asking `gpt-5.4`.
    pub fn new(api_key: String) -> (t: Self)
        ensures
            t.api_key == api_key,
            t.model@ == "gpt-5.4"@,
    {
        StructuredOutputTool { api_key, model: "gpt-5.4".to_string() }
    }

    pub fn name(&self) -> (s: &'static str)
        ensures
            s@ == "structured_output"@,
    {
        "structured_output"
    }

    pub fn description(&self) -> (s: &'static str)
        ensures
            s@ == "Extract structured data from text by providing a JSON schema. The model will return a JSON object that strictly conforms to the schema. Useful for data extraction, classification, and parsing."@,
    {
        "Extract structured data from text by providing a JSON schema. The model will return a JSON object that strictly conforms to the schema. Useful for data extraction, classification, and parsing."
    }

    /// The endpoint requests go to.
    pub fn endpoint() -> (s: &'static str)
        ensures
            s@ == "https://api.openai.com/v1/chat/completions"@,
    {
        "https://api.openai.com/v1/chat/completions"
    }

    /// The JSON Schema of the tool's parameters (see [`structured_schema`]).
    pub fn parameters_schema(&self) -> (v: JsonValue)
        ensures
            json_view(v) == structured_schema(),
    {
        let props = vec![
            member("instruction", typed_property("string", "Additional instruction for the extraction task")),
            member("schema", typed_property("object", "JSON Schema object defining the expected output structure")),
            member("schema_name", typed_property("string", "A name for the schema (used in the API request)")),
            member("text", typed_property("string", "The text to extract structured data from")),
        ];
        let required: &[&str] = &["text", "schema"];
        assert(props_view(props@) =~= seq![
            ("instruction"@, typed_prop("string"@, "Additional instruction for the extraction task"@)),
            ("schema"@, typed_prop("object"@, "JSON Schema object defining the expected output structure"@)),
            ("schema_name"@, typed_prop("string"@, "A name for the schema (used in the API request)"@)),
            ("text"@, typed_prop("string"@, "The text to extract structured data from"@)),
        ]);
        assert(required@.map_values(|n: &str| n@) =~= seq!["text"@, "schema"@]);
        object_schema_of(props, required)
    }

    /// The chat request a call asks for (see [`structured_request_spec`]),
    /// or the error result.
    pub fn request_body(&self, args: &JsonValue) -> (r: Result<JsonValue, ToolResult>)
        ensures
            match structured_request_spec(self.model@, *args) {
                Ok(v) => r matches Ok(b) && json_view(b) == v,
                Err(e) => r matches Err(t) && result_is(t, Err(e)),
            },
    {
        let text = match str_arg(args, "text") {
            Some(t) => t,
            None => return Err(ToolResult::err("Missing required argument: text".to_string())),
        };
        let schema = match args.get("schema") {
            Some(s) => crate::json::json_clone(s),
            None => return Err(ToolResult::err("Missing required argument: schema".to_string())),
        };
        let ghost sv = json_view(schema);
        let name = str_arg_or(args, "schema_name", "extraction_result");
        let instruction = str_arg_or(args, "instruction", "Extract the requested information from the text.");
        let fs = vec![
            member("content", JsonValue::String(instruction.clone())),
            member("role", JsonValue::String("system".to_string())),
        ];
        let system = object(fs);
        assert(props_view(fs@) =~= seq![("content"@, JsonView::Str(instruction@)), ("role"@, JsonView::Str("system"@))]);
        let fu = vec![
            member("content", JsonValue::String(text.clone())),
            member("role", JsonValue::String("user".to_string())),
        ];
        let user = object(fu);
        assert(props_view(fu@) =~= seq![("content"@, JsonView::Str(text@)), ("role"@, JsonView::Str("user"@))]);
        let ghost sys_v = json_view(system);
        let ghost user_v = json_view(user);
        let ms = vec![system, user];
        assert(ms@.map_values(|x: JsonValue| json_view(x)) =~= seq![sys_v, user_v]);
        let messages = array(ms);
        let ghost msv = json_view(messages);
        let fj = vec![
            member("name", JsonValue::String(name.clone())),
            member("schema", schema),
            member("strict", JsonValue::Bool(true)),
        ];
        let js = object(fj);
        assert(props_view(fj@) =~= seq![
            ("name"@, JsonView::Str(name@)),
            ("schema"@, sv),
            ("strict"@, JsonView::Bool(true)),
        ]);
        let ghost jsv = json_view(js);
        let fr = vec![member("json_schema", js), member("type", JsonValue::String("json_schema".to_string()))];
        let rf = object(fr);
        assert(props_view(fr@) =~= seq![("json_schema"@, jsv), ("type"@, JsonView::Str("json_schema"@))]);
        let ghost rfv = json_view(rf);
        let f = vec![
            member("messages", messages),
            member("model", JsonValue::String(self.model.clone())),
            member("response_format", rf),
        ];
        let v = object(f);
        assert(props_view(f@) =~= seq![
            ("messages"@, msv),
            ("model"@, JsonView::Str(self.model@)),
            ("response_format"@, rfv),
        ]);
        Ok(v)
    }

    /// The result of the extraction (see [`structured_reply_spec`]).
    pub fn reply_result(reply: ChatReply) -> (r: ToolResult)
        ensures
            result_is(r, structured_reply_spec(reply)),
    {
        match chat_reply(reply, "{}") {
            Ok(c) => match parse_json(c.as_str()) {
                Some(v) => ToolResult::ok(json_pretty_text(&v)),
                None => ToolResult::ok(c),
            },
            Err(e) => ToolResult::err(e),
        }
    }
}

} // verus!
