//! Tool results and the fixed facts of the built-in tools: their names,
//! their Track 0 risk class, and the parts of their behaviour that are
//! computation rather than I/O.

use vstd::prelude::*;

use crate::schema::{
    bool_prop, boolean_property, enum_default_prop, enum_default_property, enum_prop, enum_property, int_prop, integer_property, member, object_schema, object_schema_of, props_view, typed_prop, typed_property,
};
use crate::json::{json_as_str, json_as_u64, json_clone, json_get, json_text_of, json_view, JsonValue, JsonView};
use crate::install_policy::{char_utf8_width, utf8_len};
use crate::text::{chars_of, decimal, extend_str, push_decimal, string_of};
use crate::track0::{safe_risk, RiskClass};

verus! {

broadcast use vstd::string::group_string_axioms;

/// The result of a tool execution.
#[derive(Debug, Clone, PartialEq, Eq)]
pub struct ToolResult {
    /// Whether the tool execution succeeded.
    pub success: bool,
    /// The output of the tool (if successful).
    pub output: String,
    /// The error message (if the execution failed).
    pub error: Option<String>,
}

impl ToolResult {
    /// A successful result.
    pub fn ok(output: String) -> (r: Self)
        ensures
            r.success,
            r.output == output,
            r.error is None,
    {
        ToolResult { success: true, output, error: None }
    }

    /// A failed result.
    pub fn err(error: String) -> (r: Self)
        ensures
            !r.success,
            r.output@ == Seq::<char>::empty(),
            r.error == Some(error),
    {
        ToolResult { success: false, output: String::new(), error: Some(error) }
    }

    /// Whether the execution succeeded.
    pub fn is_ok(&self) -> (b: bool)
        ensures
            b == self.success,
    {
        self.success
    }

    /// The output text.
    pub fn output(&self) -> (s: &str)
        ensures
            s@ == self.output@,
    {
        self.output.as_str()
    }
}

// ── Aerial status ────────────────────────────────────────────────────────────

/// Stateless aerial adapter tool (pure computation, no world change).
#[derive(Debug, Clone, Copy, PartialEq, Eq)]
pub struct AerialStatusTool;

impl AerialStatusTool {
    pub fn new() -> (t: Self) {
        AerialStatusTool
    }

    pub fn name(&self) -> (s: &'static str)
        ensures
            s@ == "aerial_status"@,
    {
        "aerial_status"
    }

    /// Non-actuating: safe.
    pub fn risk_class(&self) -> (r: RiskClass)
        ensures
            r == safe_risk(),
    {
        RiskClass::safe()
    }
}

// ── GNSS ─────────────────────────────────────────────────────────────────────

/// GNSS fix decoding tool.
#[derive(Debug, Clone, Copy, PartialEq, Eq)]
pub struct GnssFixTool;

impl GnssFixTool {
    /// Stateless tool: the frame defaults to the fix's own position.
    pub fn new() -> (t: Self) {
        GnssFixTool
    }

    pub fn name(&self) -> (s: &'static str)
        ensures
            s@ == "gnss_fix"@,
    {
        "gnss_fix"
    }

    /// Decoding only: safe.
    pub fn risk_class(&self) -> (r: RiskClass)
        ensures
            r == safe_risk(),
    {
        RiskClass::safe()
    }
}

// ── Site planning ────────────────────────────────────────────────────────────

/// Stateless site-planner tool (pure computation).
#[derive(Debug, Clone, Copy, PartialEq, Eq)]
pub struct SitePlanTool;

impl SitePlanTool {
    pub fn new() -> (t: Self) {
        SitePlanTool
    }

    pub fn name(&self) -> (s: &'static str)
        ensures
            s@ == "plan_site"@,
    {
        "plan_site"
    }

    /// Planning only: safe.
    pub fn risk_class(&self) -> (r: RiskClass)
        ensures
            r == safe_risk(),
    {
        RiskClass::safe()
    }
}

// ── Audio ────────────────────────────────────────────────────────────────────

/// The default base URL of the speech API.
pub open spec fn default_api_base() -> Seq<char> {
    "https://api.openai.com/v1"@
}

/// Speech-to-text through the Whisper API.
#[derive(Debug, Clone, PartialEq, Eq)]
pub struct AudioTranscribeTool {
    pub api_key: Option<String>,
    pub api_base: String,
    pub model: String,
}

/// The parameters of [`AudioTranscribeTool`].
pub open spec fn transcribe_schema() -> JsonView {
    object_schema(
        seq![
            ("file_path"@, typed_prop("string"@, "Path to the audio file to transcribe"@)),
            ("language"@, typed_prop("string"@, "Language code (e.g. 'en', 'es', 'fr'). Auto-detected if not specified."@)),
            ("prompt"@, typed_prop("string"@, "Optional context prompt to improve transcription accuracy"@)),
            ("timestamps"@, bool_prop("Include word-level timestamps in output"@, false)),
            ("use_local"@, bool_prop("Use local whisper.cpp instead of the API (requires whisper.cpp installed)"@, false)),
        ],
        seq!["file_path"@],
    )
}

impl AudioTranscribeTool {
    /// The tool with the given key and base URL (the default API when none
    /// is configured), using the `whisper-1` model.
    pub fn configured(api_key: Option<String>, api_base: Option<String>) -> (t: Self)
        ensures
            t.api_key == api_key,
            t.api_base@ == match api_base {
                Some(b) => b@,
                None => default_api_base(),
            },
            t.model@ == "whisper-1"@,
    {
        let base = match api_base {
            Some(b) => b,
            None => "https://api.openai.com/v1".to_string(),
        };
        AudioTranscribeTool { api_key, api_base: base, model: "whisper-1".to_string() }
    }

    pub fn name(&self) -> (s: &'static str)
        ensures
            s@ == "audio_transcribe"@,
    {
        "audio_transcribe"
    }

    pub fn description(&self) -> (s: &'static str)
        ensures
            s@ == "Transcribe an audio file to text using OpenAI Whisper. Supports MP3, MP4, MPEG, MPGA, M4A, WAV, and WEBM formats up to 25MB. Returns the transcribed text with optional timestamps and language detection."@,
    {
        "Transcribe an audio file to text using OpenAI Whisper. Supports MP3, MP4, MPEG, MPGA, M4A, WAV, and WEBM formats up to 25MB. Returns the transcribed text with optional timestamps and language detection."
    }

    /// The JSON Schema of the tool's parameters (see [`transcribe_schema`]).
    pub fn parameters_schema(&self) -> (v: JsonValue)
        ensures
            json_view(v) == transcribe_schema(),
    {
        let props: Vec<(String, JsonValue)> = vec![
            member("file_path", typed_property("string", "Path to the audio file to transcribe")),
            member("language", typed_property("string", "Language code (e.g. 'en', 'es', 'fr'). Auto-detected if not specified.")),
            member("prompt", typed_property("string", "Optional context prompt to improve transcription accuracy")),
            member("timestamps", boolean_property("Include word-level timestamps in output", false)),
            member("use_local", boolean_property("Use local whisper.cpp instead of the API (requires whisper.cpp installed)", false)),
        ];
        let required: &[&str] = &["file_path"];
        assert(props_view(props@) =~= seq![
            ("file_path"@, typed_prop("string"@, "Path to the audio file to transcribe"@)),
            ("language"@, typed_prop("string"@, "Language code (e.g. 'en', 'es', 'fr'). Auto-detected if not specified."@)),
            ("prompt"@, typed_prop("string"@, "Optional context prompt to improve transcription accuracy"@)),
            ("timestamps"@, bool_prop("Include word-level timestamps in output"@, false)),
            ("use_local"@, bool_prop("Use local whisper.cpp instead of the API (requires whisper.cpp installed)"@, false)),
        ]);
        assert(required@.map_values(|n: &str| n@) =~= seq!["file_path"@]);
        object_schema_of(props, required)
    }
}

/// The value of a boolean argument `key` (`false` when absent or not a
/// boolean).
pub open spec fn flag_arg(args: JsonValue, key: Seq<char>) -> bool {
    match json_get(args, key) {
        Some(v) => match v {
            JsonValue::Bool(b) => b,
            _ => false,
        },
        None => false,
    }
}

pub(crate) fn bool_arg(args: &JsonValue, key: &str) -> (b: bool)
    ensures
        b == flag_arg(*args, key@),
{
    match args.get(key) {
        Some(v) => match v.as_bool() {
            Some(b) => b,
            None => false,
        },
        None => false,
    }
}

/// The final component `std::path::Path::file_name` finds in a path, as
/// text (named, not stated).
pub uninterp spec fn path_file_name(path: Seq<char>) -> Option<Seq<char>>;

/// Calls `std::path::Path::file_name`. Claims only that the result is a
/// function of the path, named `path_file_name`.
#[verifier::external_body]
pub(crate) fn file_name_of(path: &str) -> (n: Option<String>)
    ensures
        match n {
            Some(x) => path_file_name(path@) == Some(x@),
            None => path_file_name(path@) is None,
        },
{
    std::path::Path::new(path).file_name().map(|n| n.to_string_lossy().to_string())
}

/// The audio MIME type of a file extension (MPEG audio by default).
pub open spec fn audio_mime_for(ext: Option<Seq<char>>) -> Seq<char> {
    match ext {
        Some(e) => if e == "mp3"@ {
            "audio/mpeg"@
        } else if e == "mp4"@ {
            "audio/mp4"@
        } else if e == "wav"@ {
            "audio/wav"@
        } else if e == "webm"@ {
            "audio/webm"@
        } else if e == "m4a"@ {
            "audio/m4a"@
        } else {
            "audio/mpeg"@
        },
        None => "audio/mpeg"@,
    }
}

/// How an audio file is transcribed.
#[derive(Debug, PartialEq, Eq)]
pub enum TranscribePlan {
    /// Run the local whisper.cpp command line with these arguments.
    Local { args: Vec<String> },
    /// Upload the file to the Whisper API.
    Api {
        url: String,
        api_key: String,
        model: String,
        file_path: String,
        file_name: String,
        mime_type: String,
        response_format: String,
        language: Option<String>,
        prompt: Option<String>,
    },
}

/// The arguments of the local whisper.cpp run for `path` in `language`.
pub open spec fn local_whisper_args(path: Seq<char>, language: Seq<char>) -> Seq<Seq<char>> {
    seq![
        "-m"@,
        "/usr/local/share/whisper/ggml-base.en.bin"@,
        "-f"@,
        path,
        "-l"@,
        language,
        "--output-txt"@,
        "--no-timestamps"@,
    ]
}

/// The message refusing a transcription of a missing file.
pub open spec fn not_found_message(path: Seq<char>) -> Seq<char> {
    "Audio file not found: "@ + path
}

pub open spec fn opt_text(o: Option<String>) -> Option<Seq<char>> {
    match o {
        Some(s) => Some(s@),
        None => None,
    }
}

/// The content of a [`TranscribePlan`].
pub enum PlanView {
    Local { args: Seq<Seq<char>> },
    Api {
        url: Seq<char>,
        api_key: Seq<char>,
        model: Seq<char>,
        file_path: Seq<char>,
        file_name: Seq<char>,
        mime_type: Seq<char>,
        response_format: Seq<char>,
        language: Option<Seq<char>>,
        prompt: Option<Seq<char>>,
    },
}

impl View for TranscribePlan {
    type V = PlanView;

    open spec fn view(&self) -> PlanView {
        match self {
            TranscribePlan::Local { args } => PlanView::Local { args: args@.map_values(|x: String| x@) },
            TranscribePlan::Api {
                url,
                api_key,
                model,
                file_path,
                file_name,
                mime_type,
                response_format,
                language,
                prompt,
            } => PlanView::Api {
                url: url@,
                api_key: api_key@,
                model: model@,
                file_path: file_path@,
                file_name: file_name@,
                mime_type: mime_type@,
                response_format: response_format@,
                language: opt_text(*language),
                prompt: opt_text(*prompt),
            },
        }
    }
}

/// How a transcription of the file `path` is carried out, or why it is
/// refused (see [`AudioTranscribeTool::plan`]).
pub open spec fn transcribe_spec(t: AudioTranscribeTool, args: JsonValue, path: Seq<char>, exists: bool) -> Result<
    PlanView,
    Seq<char>,
> {
    if !exists {
        Err(not_found_message(path))
    } else if flag_arg(args, "use_local"@) {
        Ok(PlanView::Local { args: local_whisper_args(path, string_arg_or(args, "language"@, "auto"@)) })
    } else {
        match t.api_key {
            None => Err("OPENAI_API_KEY not set. Use use_local=true for local whisper.cpp transcription."@),
            Some(k) => Ok(
                PlanView::Api {
                    url: t.api_base@ + "/audio/transcriptions"@,
                    api_key: k@,
                    model: t.model@,
                    file_path: path,
                    file_name: match path_file_name(path) {
                        Some(n) => n,
                        None => "audio.mp3"@,
                    },
                    mime_type: audio_mime_for(path_extension(path)),
                    response_format: if flag_arg(args, "timestamps"@) {
                        "verbose_json"@
                    } else {
                        "text"@
                    },
                    language: string_arg(args, "language"@),
                    prompt: string_arg(args, "prompt"@),
                },
            ),
        }
    }
}

impl AudioTranscribeTool {
    /// The audio file a transcription request names, or the error result
    /// when it names none.
    pub fn requested_file(args: &JsonValue) -> (r: Result<String, ToolResult>)
        ensures
            match r {
                Ok(p) => string_arg(*args, "file_path"@) == Some(p@),
                Err(e) => string_arg(*args, "file_path"@) is None && !e.success && e.output@.len() == 0 && e.error is Some
                    && e.error->0@ == "Missing required parameter: file_path"@,
            },
    {
        match str_arg(args, "file_path") {
            Some(p) => Ok(p),
            None => Err(ToolResult::err("Missing required parameter: file_path".to_string())),
        }
    }

    /// How the file `file_path` (which the request names, and which exists
    /// or not as `file_exists` says) is transcribed, or the error result:
    /// a missing file is refused; with `use_local` whisper.cpp runs in the
    /// requested `language` (`auto` by default); otherwise an API key is
    /// needed, and the file is uploaded with its name (`audio.mp3` when it
    /// has none) and the MIME type of its extension, asking for
    /// `verbose_json` when `timestamps` are requested and `text` otherwise.
    pub fn plan(&self, args: &JsonValue, file_path: String, file_exists: bool) -> (r: Result<
        TranscribePlan,
        ToolResult,
    >)
        ensures
            match r {
                Ok(p) => transcribe_spec(*self, *args, file_path@, file_exists) == Ok::<
                    PlanView,
                    Seq<char>,
                >(p@),
                Err(e) => !e.success && e.output@.len() == 0 && e.error is Some && transcribe_spec(
                    *self,
                    *args,
                    file_path@,
                    file_exists,
                ) == Err::<PlanView, Seq<char>>(e.error->0@),
            },
    {
        if !file_exists {
            let mut m = chars_of("Audio file not found: ");
            extend_str(&mut m, file_path.as_str());
            return Err(ToolResult::err(string_of(&m)));
        }
        if bool_arg(args, "use_local") {
            let language = str_arg_or(args, "language", "auto");
            let a = vec![
                "-m".to_string(),
                "/usr/local/share/whisper/ggml-base.en.bin".to_string(),
                "-f".to_string(),
                file_path,
                "-l".to_string(),
                language,
                "--output-txt".to_string(),
                "--no-timestamps".to_string(),
            ];
            proof {
                let ghost lang = string_arg_or(*args, "language"@, "auto"@);
                assert(a@.map_values(|x: String| x@) =~= local_whisper_args(file_path@, lang));
            }
            return Ok(TranscribePlan::Local { args: a });
        }
        let api_key = match &self.api_key {
            Some(k) => k.clone(),
            None => {
                return Err(
                    ToolResult::err(
                        "OPENAI_API_KEY not set. Use use_local=true for local whisper.cpp transcription.".to_string(),
                    ),
                )
            },
        };
        let file_name = match file_name_of(file_path.as_str()) {
            Some(n) => n,
            None => "audio.mp3".to_string(),
        };
        let mime: &str = match extension_of(file_path.as_str()) {
            Some(e) => {
                let c = chars_of(e.as_str());
                if crate::text::chars_eq(&c, &chars_of("mp3")) {
                    "audio/mpeg"
                } else if crate::text::chars_eq(&c, &chars_of("mp4")) {
                    "audio/mp4"
                } else if crate::text::chars_eq(&c, &chars_of("wav")) {
                    "audio/wav"
                } else if crate::text::chars_eq(&c, &chars_of("webm")) {
                    "audio/webm"
                } else if crate::text::chars_eq(&c, &chars_of("m4a")) {
                    "audio/m4a"
                } else {
                    "audio/mpeg"
                }
            },
            None => "audio/mpeg",
        };
        let response_format = if bool_arg(args, "timestamps") {
            "verbose_json"
        } else {
            "text"
        };
        let mut url = chars_of(self.api_base.as_str());
        extend_str(&mut url, "/audio/transcriptions");
        Ok(
            TranscribePlan::Api {
                url: string_of(&url),
                api_key,
                model: self.model.clone(),
                file_path,
                file_name,
                mime_type: mime.to_string(),
                response_format: response_format.to_string(),
                language: str_arg(args, "language"),
                prompt: str_arg(args, "prompt"),
            },
        )
    }
}

/// Text-to-speech through the TTS API.
#[derive(Debug, Clone, PartialEq, Eq)]
pub struct TextToSpeechTool {
    pub api_key: Option<String>,
    pub api_base: String,
}

/// The parameters of [`TextToSpeechTool`].
pub open spec fn tts_schema() -> JsonView {
    object_schema(
        seq![
            ("format"@, enum_default_prop("Output audio format"@, seq!["mp3"@, "opus"@, "aac"@, "flac"@], "mp3"@)),
            ("model"@, enum_default_prop("TTS model (tts-1 is faster, tts-1-hd is higher quality)"@, seq!["tts-1"@, "tts-1-hd"@], "tts-1"@)),
            ("output_path"@, typed_prop("string"@, "Path to save the audio file (default: /tmp/obc_tts_<timestamp>.mp3)"@)),
            ("text"@, typed_prop("string"@, "The text to convert to speech (max 4096 characters)"@)),
            ("voice"@, enum_default_prop("Voice to use for synthesis"@, seq!["alloy"@, "echo"@, "fable"@, "onyx"@, "nova"@, "shimmer"@], "nova"@)),
        ],
        seq!["text"@],
    )
}

impl TextToSpeechTool {
    /// The tool with the given key and base URL (the default API when none
    /// is configured).
    pub fn configured(api_key: Option<String>, api_base: Option<String>) -> (t: Self)
        ensures
            t.api_key == api_key,
            t.api_base@ == match api_base {
                Some(b) => b@,
                None => default_api_base(),
            },
    {
        let base = match api_base {
            Some(b) => b,
            None => "https://api.openai.com/v1".to_string(),
        };
        TextToSpeechTool { api_key, api_base: base }
    }

    pub fn name(&self) -> (s: &'static str)
        ensures
            s@ == "text_to_speech"@,
    {
        "text_to_speech"
    }

    pub fn description(&self) -> (s: &'static str)
        ensures
            s@ == "Convert text to speech audio using OpenAI TTS. Saves the audio to a file and returns the file path. Supports multiple voices and output formats."@,
    {
        "Convert text to speech audio using OpenAI TTS. Saves the audio to a file and returns the file path. Supports multiple voices and output formats."
    }

    /// The JSON Schema of the tool's parameters (see [`tts_schema`]).
    pub fn parameters_schema(&self) -> (v: JsonValue)
        ensures
            json_view(v) == tts_schema(),
    {
        let c0: &[&str] = &["mp3", "opus", "aac", "flac"];
        let c1: &[&str] = &["tts-1", "tts-1-hd"];
        let c2: &[&str] = &["alloy", "echo", "fable", "onyx", "nova", "shimmer"];
        let props: Vec<(String, JsonValue)> = vec![
            member("format", enum_default_property("Output audio format", c0, "mp3")),
            member("model", enum_default_property("TTS model (tts-1 is faster, tts-1-hd is higher quality)", c1, "tts-1")),
            member("output_path", typed_property("string", "Path to save the audio file (default: /tmp/obc_tts_<timestamp>.mp3)")),
            member("text", typed_property("string", "The text to convert to speech (max 4096 characters)")),
            member("voice", enum_default_property("Voice to use for synthesis", c2, "nova")),
        ];
        let required: &[&str] = &["text"];
        assert(c0@.map_values(|n: &str| n@) =~= seq!["mp3"@, "opus"@, "aac"@, "flac"@]);
        assert(c1@.map_values(|n: &str| n@) =~= seq!["tts-1"@, "tts-1-hd"@]);
        assert(c2@.map_values(|n: &str| n@) =~= seq!["alloy"@, "echo"@, "fable"@, "onyx"@, "nova"@, "shimmer"@]);
        assert(props_view(props@) =~= seq![
            ("format"@, enum_default_prop("Output audio format"@, seq!["mp3"@, "opus"@, "aac"@, "flac"@], "mp3"@)),
            ("model"@, enum_default_prop("TTS model (tts-1 is faster, tts-1-hd is higher quality)"@, seq!["tts-1"@, "tts-1-hd"@], "tts-1"@)),
            ("output_path"@, typed_prop("string"@, "Path to save the audio file (default: /tmp/obc_tts_<timestamp>.mp3)"@)),
            ("text"@, typed_prop("string"@, "The text to convert to speech (max 4096 characters)"@)),
            ("voice"@, enum_default_prop("Voice to use for synthesis"@, seq!["alloy"@, "echo"@, "fable"@, "onyx"@, "nova"@, "shimmer"@], "nova"@)),
        ]);
        assert(required@.map_values(|n: &str| n@) =~= seq!["text"@]);
        object_schema_of(props, required)
    }
}

/// `s` without its trailing `/` characters.
pub open spec fn trim_end_slashes(s: Seq<char>) -> Seq<char>
    decreases s.len(),
{
    if s.len() > 0 && s.last() == '/' {
        trim_end_slashes(s.drop_last())
    } else {
        s
    }
}

/// Renders utterances to local audio files through the TTS tool.
#[derive(Debug, Clone, PartialEq, Eq)]
pub struct TtsSpeechSink {
    tts: TextToSpeechTool,
    out_dir: String,
}

impl TtsSpeechSink {
    pub closed spec fn spec_out_dir(&self) -> Seq<char> {
        self.out_dir@
    }

    pub closed spec fn spec_tts(&self) -> TextToSpeechTool {
        self.tts
    }

    /// Renders into `out_dir` with the given TTS tool.
    pub fn new(tts: TextToSpeechTool, out_dir: String) -> (s: Self)
        ensures
            s.spec_tts() == tts,
            s.spec_out_dir() == out_dir@,
    {
        TtsSpeechSink { tts, out_dir }
    }

    /// The output file of an utterance at `at_ms`:
    /// `<out_dir without trailing slashes>/obc_tts_<at_ms>.mp3`.
    pub fn out_path(&self, at_ms: u64) -> (p: String)
        ensures
            p@ == trim_end_slashes(self.spec_out_dir()) + "/obc_tts_"@ + decimal(at_ms as nat)
                + ".mp3"@,
    {
        let d = chars_of(self.out_dir.as_str());
        let mut k: usize = d.len();
        assert(d@.take(d@.len() as int) == d@);
        while k > 0 && d[k - 1] == '/'
            invariant
                k <= d.len(),
                trim_end_slashes(d@) == trim_end_slashes(d@.take(k as int)),
            decreases k,
        {
            assert(d@.take(k as int).drop_last() == d@.take(k - 1));
            k = k - 1;
        }
        assert(trim_end_slashes(d@.take(k as int)) == d@.take(k as int));
        let mut v = crate::text::slice_chars(&d, 0, k);
        extend_str(&mut v, "/obc_tts_");
        push_decimal(&mut v, at_ms);
        extend_str(&mut v, ".mp3");
        string_of(&v)
    }
}

// ── OTA and device health ────────────────────────────────────────────────────

/// Over-the-air firmware updates of peripheral nodes.
#[derive(Debug, Clone, Copy, PartialEq, Eq)]
pub struct OtaUpdateTool;

/// The parameters of [`OtaUpdateTool`].
pub open spec fn ota_schema() -> JsonView {
    object_schema(
        seq![
            ("board_type"@, enum_prop("Type of board to update"@, seq!["esp32"@, "rpi"@, "stm32"@, "arduino"@])),
            ("dry_run"@, bool_prop("If true, validate the update without applying it"@, false)),
            ("firmware_path"@, typed_prop("string"@, "Local path to the firmware binary (for STM32/Arduino)"@)),
            ("firmware_url"@, typed_prop("string"@, "URL to the firmware binary (for ESP32 HTTP OTA)"@)),
            ("node_name"@, typed_prop("string"@, "Name of the peripheral node to update (e.g. 'esp32-sensor-1')"@)),
            ("serial_port"@, typed_prop("string"@, "Serial port for Arduino flash (e.g. '/dev/ttyUSB0')"@)),
            ("target_version"@, typed_prop("string"@, "Expected target firmware version (for verification)"@)),
        ],
        seq!["node_name"@, "board_type"@],
    )
}

impl OtaUpdateTool {
    pub fn name(&self) -> (s: &'static str)
        ensures
            s@ == "ota_update"@,
    {
        "ota_update"
    }

    pub fn description(&self) -> (s: &'static str)
        ensures
            s@ == "Perform an over-the-air (OTA) firmware update on a connected peripheral node. Supports ESP32 (HTTP OTA), Raspberry Pi (apt/pip), STM32 (probe-rs flash), and Arduino (avrdude serial flash). Returns update status and new firmware version."@,
    {
        "Perform an over-the-air (OTA) firmware update on a connected peripheral node. Supports ESP32 (HTTP OTA), Raspberry Pi (apt/pip), STM32 (probe-rs flash), and Arduino (avrdude serial flash). Returns update status and new firmware version."
    }

    /// The JSON Schema of the tool's parameters (see [`ota_schema`]).
    pub fn parameters_schema(&self) -> (v: JsonValue)
        ensures
            json_view(v) == ota_schema(),
    {
        let c0: &[&str] = &["esp32", "rpi", "stm32", "arduino"];
        let props: Vec<(String, JsonValue)> = vec![
            member("board_type", enum_property("Type of board to update", c0)),
            member("dry_run", boolean_property("If true, validate the update without applying it", false)),
            member("firmware_path", typed_property("string", "Local path to the firmware binary (for STM32/Arduino)")),
            member("firmware_url", typed_property("string", "URL to the firmware binary (for ESP32 HTTP OTA)")),
            member("node_name", typed_property("string", "Name of the peripheral node to update (e.g. 'esp32-sensor-1')")),
            member("serial_port", typed_property("string", "Serial port for Arduino flash (e.g. '/dev/ttyUSB0')")),
            member("target_version", typed_property("string", "Expected target firmware version (for verification)")),
        ];
        let required: &[&str] = &["node_name", "board_type"];
        assert(c0@.map_values(|n: &str| n@) =~= seq!["esp32"@, "rpi"@, "stm32"@, "arduino"@]);
        assert(props_view(props@) =~= seq![
            ("board_type"@, enum_prop("Type of board to update"@, seq!["esp32"@, "rpi"@, "stm32"@, "arduino"@])),
            ("dry_run"@, bool_prop("If true, validate the update without applying it"@, false)),
            ("firmware_path"@, typed_prop("string"@, "Local path to the firmware binary (for STM32/Arduino)"@)),
            ("firmware_url"@, typed_prop("string"@, "URL to the firmware binary (for ESP32 HTTP OTA)"@)),
            ("node_name"@, typed_prop("string"@, "Name of the peripheral node to update (e.g. 'esp32-sensor-1')"@)),
            ("serial_port"@, typed_prop("string"@, "Serial port for Arduino flash (e.g. '/dev/ttyUSB0')"@)),
            ("target_version"@, typed_prop("string"@, "Expected target firmware version (for verification)"@)),
        ]);
        assert(required@.map_values(|n: &str| n@) =~= seq!["node_name"@, "board_type"@]);
        object_schema_of(props, required)
    }
}

/// Which board an update targets, with what it needs.
#[derive(Debug, PartialEq, Eq)]
pub enum OtaTarget {
    /// ESP32 over HTTP OTA from the firmware URL.
    Esp32 { firmware_url: String },
    /// Raspberry Pi package upgrade.
    Rpi,
    /// STM32 flashed with probe-rs from a local file.
    Stm32 { firmware_path: String },
    /// Arduino flashed with avrdude from a local file over a serial port.
    Arduino { firmware_path: String, serial_port: String },
}

/// An update request: the node, the board and whether it is a dry run.
#[derive(Debug, PartialEq, Eq)]
pub struct OtaRequest {
    pub node_name: String,
    pub target: OtaTarget,
    pub dry_run: bool,
}

/// The content of an [`OtaTarget`].
pub enum OtaTargetView {
    Esp32 { firmware_url: Seq<char> },
    Rpi,
    Stm32 { firmware_path: Seq<char> },
    Arduino { firmware_path: Seq<char>, serial_port: Seq<char> },
}

impl View for OtaTarget {
    type V = OtaTargetView;

    open spec fn view(&self) -> OtaTargetView {
        match self {
            OtaTarget::Esp32 { firmware_url } => OtaTargetView::Esp32 { firmware_url: firmware_url@ },
            OtaTarget::Rpi => OtaTargetView::Rpi,
            OtaTarget::Stm32 { firmware_path } => OtaTargetView::Stm32 { firmware_path: firmware_path@ },
            OtaTarget::Arduino { firmware_path, serial_port } => OtaTargetView::Arduino {
                firmware_path: firmware_path@,
                serial_port: serial_port@,
            },
        }
    }
}

/// The update `args` ask for, or the message refusing them.
pub open spec fn ota_request_spec(args: JsonValue) -> Result<(Seq<char>, OtaTargetView, bool), Seq<char>> {
    match (string_arg(args, "node_name"@), string_arg(args, "board_type"@)) {
        (None, _) => Err("Missing required parameter: node_name"@),
        (Some(_), None) => Err("Missing required parameter: board_type"@),
        (Some(node), Some(board)) => {
            let dry = flag_arg(args, "dry_run"@);
            if board == "esp32"@ {
                match string_arg(args, "firmware_url"@) {
                    Some(u) => Ok((node, OtaTargetView::Esp32 { firmware_url: u }, dry)),
                    None => Err("firmware_url required for ESP32 OTA"@),
                }
            } else if board == "rpi"@ {
                Ok((node, OtaTargetView::Rpi, dry))
            } else if board == "stm32"@ {
                match string_arg(args, "firmware_path"@) {
                    Some(p) => Ok((node, OtaTargetView::Stm32 { firmware_path: p }, dry)),
                    None => Err("firmware_path required for STM32 flash"@),
                }
            } else if board == "arduino"@ {
                match string_arg(args, "firmware_path"@) {
                    Some(p) => Ok(
                        (
                            node,
                            OtaTargetView::Arduino {
                                firmware_path: p,
                                serial_port: string_arg_or(args, "serial_port"@, "/dev/ttyUSB0"@),
                            },
                            dry,
                        ),
                    ),
                    None => Err("firmware_path required for Arduino flash"@),
                }
            } else {
                Err("Unsupported board type: "@ + board)
            }
        },
    }
}

/// The report of an ESP32 update of `node` from `url`, whose firmware the
/// server sizes at `size` bytes of type `content_type`.
pub open spec fn esp32_report(node: Seq<char>, url: Seq<char>, size: u64, content_type: Seq<char>, dry_run: bool) -> Seq<char> {
    if dry_run {
        "DRY RUN: ESP32 OTA for '"@ + node + "'\nFirmware URL: "@ + url + "\nSize: "@ + decimal(size as nat)
            + " bytes\nContent-Type: "@ + content_type + "\nStatus: URL is reachable, update would proceed."@
    } else {
        "ESP32 OTA initiated for '"@ + node + "'\nFirmware URL: "@ + url + "\nSize: "@ + decimal(size as nat)
            + " bytes\nCommand sent: "@ + json_text_of(
            JsonView::Object(
                seq![
                    ("cmd"@, JsonView::Str("ota_start"@)),
                    ("size"@, JsonView::Number(decimal(size as nat))),
                    ("url"@, JsonView::Str(url)),
                ],
            ),
        )
            + "\nThe ESP32 will download and apply the update, then reboot.\nMonitor node status for reconnection (typically 30-60 seconds)."@
    }
}

impl OtaRequest {
    /// The update `args` ask for, or the error result refusing them: a node
    /// and a supported board (`esp32` with a firmware URL, `rpi`, `stm32` or
    /// `arduino` with a firmware path, the latter on `/dev/ttyUSB0` unless a
    /// serial port is given); `dry_run` defaults to false.
    pub fn from_args(args: &JsonValue) -> (r: Result<OtaRequest, ToolResult>)
        ensures
            match r {
                Ok(q) => ota_request_spec(*args) == Ok::<(Seq<char>, OtaTargetView, bool), Seq<char>>(
                    (q.node_name@, q.target@, q.dry_run),
                ),
                Err(e) => !e.success && e.output@.len() == 0 && e.error is Some && ota_request_spec(*args) == Err::<
                    (Seq<char>, OtaTargetView, bool),
                    Seq<char>,
                >(e.error->0@),
            },
    {
        let node_name = match str_arg(args, "node_name") {
            Some(n) => n,
            None => return Err(ToolResult::err("Missing required parameter: node_name".to_string())),
        };
        let board = match str_arg(args, "board_type") {
            Some(b) => b,
            None => return Err(ToolResult::err("Missing required parameter: board_type".to_string())),
        };
        let dry_run = bool_arg(args, "dry_run");
        let b = chars_of(board.as_str());
        let target = if crate::text::chars_eq(&b, &chars_of("esp32")) {
            match str_arg(args, "firmware_url") {
                Some(u) => OtaTarget::Esp32 { firmware_url: u },
                None => return Err(ToolResult::err("firmware_url required for ESP32 OTA".to_string())),
            }
        } else if crate::text::chars_eq(&b, &chars_of("rpi")) {
            OtaTarget::Rpi
        } else if crate::text::chars_eq(&b, &chars_of("stm32")) {
            match str_arg(args, "firmware_path") {
                Some(p) => OtaTarget::Stm32 { firmware_path: p },
                None => return Err(ToolResult::err("firmware_path required for STM32 flash".to_string())),
            }
        } else if crate::text::chars_eq(&b, &chars_of("arduino")) {
            match str_arg(args, "firmware_path") {
                Some(p) => OtaTarget::Arduino {
                    firmware_path: p,
                    serial_port: str_arg_or(args, "serial_port", "/dev/ttyUSB0"),
                },
                None => return Err(ToolResult::err("firmware_path required for Arduino flash".to_string())),
            }
        } else {
            let mut m = chars_of("Unsupported board type: ");
            extend_str(&mut m, board.as_str());
            return Err(ToolResult::err(string_of(&m)));
        };
        Ok(OtaRequest { node_name, target, dry_run })
    }

    /// The report of an ESP32 update of `node` from `url` (see
    /// [`esp32_report`]); the command to the node is shown as compact JSON.
    pub fn esp32_report(node: &str, url: &str, size: u64, content_type: &str, dry_run: bool) -> (s: String)
        ensures
            s@ == esp32_report(node@, url@, size, content_type@, dry_run),
    {
        let mut v: Vec<char> = Vec::new();
        if dry_run {
            extend_str(&mut v, "DRY RUN: ESP32 OTA for '");
            extend_str(&mut v, node);
            extend_str(&mut v, "'\nFirmware URL: ");
            extend_str(&mut v, url);
            extend_str(&mut v, "\nSize: ");
            push_decimal(&mut v, size);
            extend_str(&mut v, " bytes\nContent-Type: ");
            extend_str(&mut v, content_type);
            extend_str(&mut v, "\nStatus: URL is reachable, update would proceed.");
        } else {
            let mut n: Vec<char> = Vec::new();
            push_decimal(&mut n, size);
            let fields = vec![
                ("cmd".to_string(), JsonValue::String("ota_start".to_string())),
                ("size".to_string(), JsonValue::Number(string_of(&n))),
                ("url".to_string(), JsonValue::String(url.to_string())),
            ];
            proof {
                crate::json::lemma_fields_index(fields@);
                assert(crate::json::fields_view(fields@, 0) =~= seq![
                    ("cmd"@, JsonView::Str("ota_start"@)),
                    ("size"@, JsonView::Number(decimal(size as nat))),
                    ("url"@, JsonView::Str(url@)),
                ]);
            }
            let command = crate::json::json_text(&JsonValue::Object(fields));
            extend_str(&mut v, "ESP32 OTA initiated for '");
            extend_str(&mut v, node);
            extend_str(&mut v, "'\nFirmware URL: ");
            extend_str(&mut v, url);
            extend_str(&mut v, "\nSize: ");
            push_decimal(&mut v, size);
            extend_str(&mut v, " bytes\nCommand sent: ");
            extend_str(&mut v, command.as_str());
            extend_str(
                &mut v,
                "\nThe ESP32 will download and apply the update, then reboot.\nMonitor node status for reconnection (typically 30-60 seconds).",
            );
        }
        string_of(&v)
    }
}

/// Commands sent to a node over the LoRa mesh.
#[derive(Debug, Clone, Copy, PartialEq, Eq)]
pub struct MeshCommandTool;

/// Argument `key` as a string with surrounding whitespace trimmed (empty
/// when absent).
pub open spec fn trimmed_arg(args: JsonValue, key: Seq<char>) -> Seq<char> {
    crate::text::trim(string_arg_or(args, key, ""@))
}

/// The parameters of [`MeshCommandTool`].
pub open spec fn mesh_command_schema() -> JsonView {
    object_schema(
        seq![
            ("args"@, typed_prop("object"@, "Command arguments (any JSON object the node's handler understands)."@)),
            ("command"@, typed_prop("string"@, "The node command, e.g. 'gpio_write', 'sensor_read', 'capabilities'."@)),
            ("node_id"@, typed_prop("string"@, "Target node id (the node executes only if this matches its own id)."@)),
        ],
        seq!["node_id"@, "command"@],
    )
}

impl MeshCommandTool {
    pub fn name(&self) -> (s: &'static str)
        ensures
            s@ == "mesh_command"@,
    {
        "mesh_command"
    }

    pub fn description(&self) -> (s: &'static str)
        ensures
            s@ == "Send a command to a node over the LoRa mesh (off-grid return path — no WiFi/MQTT). Addresses a single node by id and delivers a node command (e.g. 'gpio_write', 'sensor_read', 'capabilities') with optional args. The node executes it under its own on-MCU Track 0 safety gate; the reply, if any, returns over the mesh into world memory. Use when a node is reachable only over LoRa."@,
    {
        "Send a command to a node over the LoRa mesh (off-grid return path — no WiFi/MQTT). Addresses a single node by id and delivers a node command (e.g. 'gpio_write', 'sensor_read', 'capabilities') with optional args. The node executes it under its own on-MCU Track 0 safety gate; the reply, if any, returns over the mesh into world memory. Use when a node is reachable only over LoRa."
    }

    /// The JSON Schema of the tool's parameters (see [`mesh_command_schema`]).
    pub fn parameters_schema(&self) -> (v: JsonValue)
        ensures
            json_view(v) == mesh_command_schema(),
    {
        let props: Vec<(String, JsonValue)> = vec![
            member("args", typed_property("object", "Command arguments (any JSON object the node's handler understands).")),
            member("command", typed_property("string", "The node command, e.g. 'gpio_write', 'sensor_read', 'capabilities'.")),
            member("node_id", typed_property("string", "Target node id (the node executes only if this matches its own id).")),
        ];
        let required: &[&str] = &["node_id", "command"];
        assert(props_view(props@) =~= seq![
            ("args"@, typed_prop("object"@, "Command arguments (any JSON object the node's handler understands)."@)),
            ("command"@, typed_prop("string"@, "The node command, e.g. 'gpio_write', 'sensor_read', 'capabilities'."@)),
            ("node_id"@, typed_prop("string"@, "Target node id (the node executes only if this matches its own id)."@)),
        ]);
        assert(required@.map_values(|n: &str| n@) =~= seq!["node_id"@, "command"@]);
        object_schema_of(props, required)
    }

    /// A mesh command actuates a node: physical, reversible, with a high
    /// blast radius.
    pub fn risk_class(&self) -> (r: RiskClass)
        ensures
            r == (RiskClass { physical: true, reversible: true, blast: crate::track0::BlastRadius::High }),
    {
        RiskClass::physical(true, crate::track0::BlastRadius::High)
    }

    /// The command `args` ask to send, under a fresh random id, or the error
    /// result: the node id and the command are required (trimmed, non-empty);
    /// the arguments default to an empty object.
    pub fn command(args: &JsonValue) -> (r: Result<crate::gateway::NodeCommand, ToolResult>)
        ensures
            match r {
                Ok(c) => {
                    &&& trimmed_arg(*args, "node_id"@).len() > 0
                    &&& trimmed_arg(*args, "command"@).len() > 0
                    &&& c.to@ == trimmed_arg(*args, "node_id"@)
                    &&& c.cmd@ == trimmed_arg(*args, "command"@)
                    &&& c.id@.len() == 36
                    &&& json_view(c.args) == match json_get(*args, "args"@) {
                        Some(a) => json_view(a),
                        None => JsonView::Object(seq![]),
                    }
                },
                Err(e) => !e.success && e.output@.len() == 0 && e.error is Some && if trimmed_arg(*args, "node_id"@).len() == 0 {
                    e.error->0@ == "mesh_command requires a non-empty 'node_id'"@
                } else {
                    trimmed_arg(*args, "command"@).len() == 0 && e.error->0@
                        == "mesh_command requires a non-empty 'command'"@
                },
            },
    {
        let node = crate::text::trimmed(&chars_of(str_arg_or(args, "node_id", "").as_str()));
        if node.len() == 0 {
            return Err(ToolResult::err("mesh_command requires a non-empty 'node_id'".to_string()));
        }
        let command = crate::text::trimmed(&chars_of(str_arg_or(args, "command", "").as_str()));
        if command.len() == 0 {
            return Err(ToolResult::err("mesh_command requires a non-empty 'command'".to_string()));
        }
        let cmd_args = match args.get("args") {
            Some(a) => json_clone(a),
            None => {
                let empty: Vec<(String, JsonValue)> = Vec::new();
                assert(crate::json::fields_view(empty@, 0) =~= seq![]);
                JsonValue::Object(empty)
            },
        };
        Ok(
            crate::gateway::NodeCommand::new(
                string_of(&node),
                crate::spine::random_uuid_text(),
                string_of(&command),
                cmd_args,
            ),
        )
    }

    /// The result reporting `cmd` delivered to the mesh: its id, target and
    /// command as compact JSON.
    pub fn sent_report(cmd: &crate::gateway::NodeCommand) -> (r: ToolResult)
        ensures
            r.success,
            r.error is None,
            r.output@ == json_text_of(
                JsonView::Object(
                    seq![
                        ("command"@, JsonView::Str(cmd.cmd@)),
                        ("id"@, JsonView::Str(cmd.id@)),
                        ("note"@, JsonView::Str(
                            "delivered to the mesh; the node executes under its on-MCU Track 0 gate, and any reply returns over the mesh into world memory"@,
                        )),
                        ("sent"@, JsonView::Bool(true)),
                        ("to"@, JsonView::Str(cmd.to@)),
                    ],
                ),
            ),
    {
        let fields = vec![
            ("command".to_string(), JsonValue::String(cmd.cmd.clone())),
            ("id".to_string(), JsonValue::String(cmd.id.clone())),
            (
                "note".to_string(),
                JsonValue::String(
                    "delivered to the mesh; the node executes under its on-MCU Track 0 gate, and any reply returns over the mesh into world memory".to_string(),
                ),
            ),
            ("sent".to_string(), JsonValue::Bool(true)),
            ("to".to_string(), JsonValue::String(cmd.to.clone())),
        ];
        proof {
            crate::json::lemma_fields_index(fields@);
        }
        proof {
            assert(crate::json::fields_view(fields@, 0) =~= seq![
                ("command"@, JsonView::Str(cmd.cmd@)),
                ("id"@, JsonView::Str(cmd.id@)),
                ("note"@, JsonView::Str(
                    "delivered to the mesh; the node executes under its on-MCU Track 0 gate, and any reply returns over the mesh into world memory"@,
                )),
                ("sent"@, JsonView::Bool(true)),
                ("to"@, JsonView::Str(cmd.to@)),
            ]);
        }
        let v = JsonValue::Object(fields);
        ToolResult::ok(crate::json::json_text(&v))
    }
}

/// Health and connectivity checks of peripheral nodes.
#[derive(Debug, Clone, Copy, PartialEq, Eq)]
pub struct DeviceHealthTool;

/// The parameters of [`DeviceHealthTool`].
pub open spec fn device_health_schema() -> JsonView {
    object_schema(
        seq![
            ("node_name"@, typed_prop("string"@, "Name of the peripheral node to check"@)),
            ("ping"@, bool_prop("Send a ping to measure round-trip latency"@, true)),
        ],
        seq!["node_name"@],
    )
}

impl DeviceHealthTool {
    pub fn name(&self) -> (s: &'static str)
        ensures
            s@ == "device_health"@,
    {
        "device_health"
    }

    pub fn description(&self) -> (s: &'static str)
        ensures
            s@ == "Check the health and connectivity status of a peripheral node. Returns connection status, last heartbeat time, firmware version, uptime, and any error conditions. Use this before performing OTA updates."@,
    {
        "Check the health and connectivity status of a peripheral node. Returns connection status, last heartbeat time, firmware version, uptime, and any error conditions. Use this before performing OTA updates."
    }

    /// The JSON Schema of the tool's parameters (see [`device_health_schema`]).
    pub fn parameters_schema(&self) -> (v: JsonValue)
        ensures
            json_view(v) == device_health_schema(),
    {
        let props: Vec<(String, JsonValue)> = vec![
            member("node_name", typed_property("string", "Name of the peripheral node to check")),
            member("ping", boolean_property("Send a ping to measure round-trip latency", true)),
        ];
        let required: &[&str] = &["node_name"];
        assert(props_view(props@) =~= seq![
            ("node_name"@, typed_prop("string"@, "Name of the peripheral node to check"@)),
            ("ping"@, bool_prop("Send a ping to measure round-trip latency"@, true)),
        ]);
        assert(required@.map_values(|n: &str| n@) =~= seq!["node_name"@]);
        object_schema_of(props, required)
    }
}

// ── Shell ────────────────────────────────────────────────────────────────────

/// Runs a shell command and returns its output.
#[derive(Debug, Clone, Copy, PartialEq, Eq)]
pub struct ShellTool;

/// The parameters of [`ShellTool`].
pub open spec fn shell_schema() -> JsonView {
    object_schema(
        seq![
            ("command"@, typed_prop("string"@, "The shell command to execute."@)),
            ("timeout_secs"@, int_prop("Timeout in seconds (default: 30, max: 120)."@, 30, 1, 120)),
        ],
        seq!["command"@],
    )
}

impl ShellTool {
    pub fn new() -> (t: Self) {
        ShellTool
    }

    pub fn name(&self) -> (s: &'static str)
        ensures
            s@ == "shell"@,
    {
        "shell"
    }

    pub fn description(&self) -> (s: &'static str)
        ensures
            s@ == "Execute a shell command and return its stdout and stderr. Use this to run programs, scripts, system commands, or pipelines. The command is run with /bin/sh -c on Linux/macOS. Use this sparingly and only for safe, non-destructive operations unless explicitly asked."@,
    {
        "Execute a shell command and return its stdout and stderr. Use this to run programs, scripts, system commands, or pipelines. The command is run with /bin/sh -c on Linux/macOS. Use this sparingly and only for safe, non-destructive operations unless explicitly asked."
    }

    /// The JSON Schema of the tool's parameters (see [`shell_schema`]).
    pub fn parameters_schema(&self) -> (v: JsonValue)
        ensures
            json_view(v) == shell_schema(),
    {
        let props: Vec<(String, JsonValue)> = vec![
            member("command", typed_property("string", "The shell command to execute.")),
            member("timeout_secs", integer_property("Timeout in seconds (default: 30, max: 120).", 30, 1, 120)),
        ];
        let required: &[&str] = &["command"];
        assert(props_view(props@) =~= seq![
            ("command"@, typed_prop("string"@, "The shell command to execute."@)),
            ("timeout_secs"@, int_prop("Timeout in seconds (default: 30, max: 120)."@, 30, 1, 120)),
        ]);
        assert(required@.map_values(|n: &str| n@) =~= seq!["command"@]);
        object_schema_of(props, required)
    }
}

// ── File ─────────────────────────────────────────────────────────────────────

/// Reads and writes files on the local filesystem.
#[derive(Debug, Clone, Copy, PartialEq, Eq)]
pub struct FileTool;

/// A file operation requested of the file tool.
#[derive(Debug, Clone, PartialEq, Eq)]
pub enum FileAction {
    Read,
    Write { content: String },
    Append { content: String },
    List,
    Exists,
    Delete,
}

/// Why a file request cannot be carried out.
#[derive(Debug, Clone, PartialEq, Eq)]
pub enum FileRequestError {
    /// No `action` string (the call fails).
    MissingAction,
    /// No `path` string (the call fails).
    MissingPath,
    /// `write` or `append` without a `content` string (the call fails).
    MissingContent { action: String },
    /// An action the tool does not know (an error result).
    UnknownAction { action: String },
}

pub open spec fn string_arg(args: JsonValue, key: Seq<char>) -> Option<Seq<char>> {
    match json_get(args, key) {
        Some(v) => json_as_str(v),
        None => None,
    }
}

/// Views of an action and an error whose strings are taken as sequences.
pub open spec fn action_view(a: FileAction) -> FileActionView {
    match a {
        FileAction::Read => FileActionView::Read,
        FileAction::Write { content } => FileActionView::Write { content: content@ },
        FileAction::Append { content } => FileActionView::Append { content: content@ },
        FileAction::List => FileActionView::List,
        FileAction::Exists => FileActionView::Exists,
        FileAction::Delete => FileActionView::Delete,
    }
}

pub enum FileActionView {
    Read,
    Write { content: Seq<char> },
    Append { content: Seq<char> },
    List,
    Exists,
    Delete,
}

pub enum FileErrorView {
    MissingAction,
    MissingPath,
    MissingContent { action: Seq<char> },
    UnknownAction { action: Seq<char> },
}

pub open spec fn error_view(e: FileRequestError) -> FileErrorView {
    match e {
        FileRequestError::MissingAction => FileErrorView::MissingAction,
        FileRequestError::MissingPath => FileErrorView::MissingPath,
        FileRequestError::MissingContent { action } => FileErrorView::MissingContent {
            action: action@,
        },
        FileRequestError::UnknownAction { action } => FileErrorView::UnknownAction {
            action: action@,
        },
    }
}

/// The request `args` describe, with actions and errors as views.
pub open spec fn file_request_view(args: JsonValue) -> Result<(FileActionView, Seq<char>), FileErrorView> {
    match (string_arg(args, "action"@), string_arg(args, "path"@)) {
        (None, _) => Err(FileErrorView::MissingAction),
        (Some(_), None) => Err(FileErrorView::MissingPath),
        (Some(a), Some(p)) => if a == "read"@ {
            Ok((FileActionView::Read, p))
        } else if a == "list"@ {
            Ok((FileActionView::List, p))
        } else if a == "exists"@ {
            Ok((FileActionView::Exists, p))
        } else if a == "delete"@ {
            Ok((FileActionView::Delete, p))
        } else if a == "write"@ || a == "append"@ {
            match string_arg(args, "content"@) {
                None => Err(FileErrorView::MissingContent { action: a }),
                Some(c) => if a == "write"@ {
                    Ok((FileActionView::Write { content: c }, p))
                } else {
                    Ok((FileActionView::Append { content: c }, p))
                },
            }
        } else {
            Err(FileErrorView::UnknownAction { action: a })
        },
    }
}

pub(crate) fn str_arg(args: &JsonValue, key: &str) -> (r: Option<String>)
    ensures
        match r {
            Some(s) => string_arg(*args, key@) == Some(s@),
            None => string_arg(*args, key@) is None,
        },
{
    match args.get(key) {
        Some(v) => match v.as_str() {
            Some(s) => Some(s.to_string()),
            None => None,
        },
        None => None,
    }
}

/// The parameters of [`FileTool`].
pub open spec fn file_schema() -> JsonView {
    object_schema(
        seq![
            ("action"@, enum_prop("The file operation to perform."@, seq!["read"@, "write"@, "append"@, "list"@, "exists"@, "delete"@])),
            ("content"@, typed_prop("string"@, "The content to write or append (required for 'write' and 'append' actions)."@)),
            ("path"@, typed_prop("string"@, "The file or directory path."@)),
        ],
        seq!["action"@, "path"@],
    )
}

/// The name a directory entry is listed under: a directory's carries a
/// trailing `/`.
pub open spec fn entry_label(e: (String, bool)) -> Seq<char> {
    if e.1 {
        e.0@ + "/"@
    } else {
        e.0@
    }
}

impl FileTool {
    /// The listing of a directory whose entries are `entries` (name, and
    /// whether it is a directory): their labels in ascending string order,
    /// one per line.
    pub fn listing(entries: &[(String, bool)]) -> (r: String)
        ensures
            exists|s: Seq<Seq<char>>|
                crate::text::texts_sorted(s) && s.to_multiset() == entries@.map_values(
                    |e: (String, bool)| entry_label(e),
                ).to_multiset() && r@ == crate::memory::join_lines(s),
    {
        let mut labels: Vec<String> = Vec::new();
        let mut i: usize = 0;
        while i < entries.len()
            invariant
                i <= entries.len(),
                crate::text::texts_view(labels@) == entries@.take(i as int).map_values(
                    |e: (String, bool)| entry_label(e),
                ),
            decreases entries.len() - i,
        {
            let l = if entries[i].1 {
                crate::text::concat_str(entries[i].0.as_str(), "/")
            } else {
                entries[i].0.clone()
            };
            let ghost before = labels@;
            labels.push(l);
            assert(crate::text::texts_view(labels@) =~= crate::text::texts_view(before).push(entry_label(entries@[i as int])));
            assert(entries@.take(i + 1).map_values(|e: (String, bool)| entry_label(e)) =~= entries@.take(
                i as int,
            ).map_values(|e: (String, bool)| entry_label(e)).push(entry_label(entries@[i as int])));
            i = i + 1;
        }
        assert(entries@.take(entries@.len() as int) =~= entries@);
        let sorted = crate::text::sort_texts(labels);
        let r = crate::memory::join_lines_of(&sorted);
        assert(crate::text::texts_view(sorted@) == sorted@.map_values(|l: String| l@));
        r
    }

    pub fn new() -> (t: Self) {
        FileTool
    }

    pub fn name(&self) -> (s: &'static str)
        ensures
            s@ == "file"@,
    {
        "file"
    }

    pub fn description(&self) -> (s: &'static str)
        ensures
            s@ == "Read or write files on the local filesystem. Supports reading text files, writing/overwriting text files, appending to files, listing directory contents, and checking if a path exists."@,
    {
        "Read or write files on the local filesystem. Supports reading text files, writing/overwriting text files, appending to files, listing directory contents, and checking if a path exists."
    }

    /// The JSON Schema of the tool's parameters (see [`file_schema`]).
    pub fn parameters_schema(&self) -> (v: JsonValue)
        ensures
            json_view(v) == file_schema(),
    {
        let c0: &[&str] = &["read", "write", "append", "list", "exists", "delete"];
        let props: Vec<(String, JsonValue)> = vec![
            member("action", enum_property("The file operation to perform.", c0)),
            member("content", typed_property("string", "The content to write or append (required for 'write' and 'append' actions).")),
            member("path", typed_property("string", "The file or directory path.")),
        ];
        let required: &[&str] = &["action", "path"];
        assert(c0@.map_values(|n: &str| n@) =~= seq!["read"@, "write"@, "append"@, "list"@, "exists"@, "delete"@]);
        assert(props_view(props@) =~= seq![
            ("action"@, enum_prop("The file operation to perform."@, seq!["read"@, "write"@, "append"@, "list"@, "exists"@, "delete"@])),
            ("content"@, typed_prop("string"@, "The content to write or append (required for 'write' and 'append' actions)."@)),
            ("path"@, typed_prop("string"@, "The file or directory path."@)),
        ]);
        assert(required@.map_values(|n: &str| n@) =~= seq!["action"@, "path"@]);
        object_schema_of(props, required)
    }

    /// The operation and path that the call's arguments ask for: `action`
    /// and `path` strings are required, and `content` for `write` and
    /// `append`.
    pub fn request(args: &JsonValue) -> (r: Result<(FileAction, String), FileRequestError>)
        ensures
            match r {
                Ok((a, p)) => file_request_view(*args) == Ok::<(FileActionView, Seq<char>), FileErrorView>((action_view(a), p@)),
                Err(e) => file_request_view(*args) == Err::<(FileActionView, Seq<char>), FileErrorView>(error_view(e)),
            },
    {
        let action = match str_arg(args, "action") {
            Some(a) => a,
            None => return Err(FileRequestError::MissingAction),
        };
        let path = match str_arg(args, "path") {
            Some(p) => p,
            None => return Err(FileRequestError::MissingPath),
        };
        let a = chars_of(action.as_str());
        if crate::text::chars_eq(&a, &chars_of("read")) {
            Ok((FileAction::Read, path))
        } else if crate::text::chars_eq(&a, &chars_of("list")) {
            Ok((FileAction::List, path))
        } else if crate::text::chars_eq(&a, &chars_of("exists")) {
            Ok((FileAction::Exists, path))
        } else if crate::text::chars_eq(&a, &chars_of("delete")) {
            Ok((FileAction::Delete, path))
        } else if crate::text::chars_eq(&a, &chars_of("write")) || crate::text::chars_eq(
            &a,
            &chars_of("append"),
        ) {
            match str_arg(args, "content") {
                None => Err(FileRequestError::MissingContent { action }),
                Some(c) => if crate::text::chars_eq(&a, &chars_of("write")) {
                    Ok((FileAction::Write { content: c }, path))
                } else {
                    Ok((FileAction::Append { content: c }, path))
                },
            }
        } else {
            Err(FileRequestError::UnknownAction { action })
        }
    }
}


// ── Text to speech request ───────────────────────────────────────────────────

/// A speech synthesis request ready to be sent.
#[derive(Debug, PartialEq)]
pub struct TtsRequest {
    /// The endpoint: the API base and `/audio/speech`.
    pub url: String,
    /// The bearer token.
    pub api_key: String,
    /// The JSON body: `input`, `model`, `response_format`, `voice`.
    pub body: JsonValue,
    /// Where the audio is saved.
    pub output_path: String,
    pub voice: String,
    pub model: String,
}

/// Argument `key` as a string, else `default`.
pub open spec fn string_arg_or(args: JsonValue, key: Seq<char>, default: Seq<char>) -> Seq<char> {
    match string_arg(args, key) {
        Some(s) => s,
        None => default,
    }
}

/// Why a speech request is refused, as the error message; `None` when it
/// can be sent.
pub open spec fn tts_refusal(args: JsonValue, api_key: Option<String>) -> Option<Seq<char>> {
    match string_arg(args, "text"@) {
        None => Some("Missing required parameter: text"@),
        Some(t) => if utf8_len(t) > 4096 {
            Some("Text exceeds 4096 character limit for TTS"@)
        } else if api_key is None {
            Some("OPENAI_API_KEY not set"@)
        } else {
            None
        },
    }
}

/// The unsigned integer member `key` of `args`, or `default` when it is
/// absent or not an unsigned integer.
pub open spec fn u64_arg_or(args: JsonValue, key: Seq<char>, default: u64) -> u64 {
    match json_get(args, key) {
        Some(v) => match json_as_u64(v) {
            Some(n) => n,
            None => default,
        },
        None => default,
    }
}

pub(crate) fn u64_arg_or_default(args: &JsonValue, key: &str, default: u64) -> (n: u64)
    ensures
        n == u64_arg_or(*args, key@, default),
{
    match args.get(key) {
        Some(v) => match v.as_u64() {
            Some(n) => n,
            None => default,
        },
        None => default,
    }
}

/// `r` is the successful result with output `o`, or the failed result with
/// error `o`, as `o` says.
pub open spec fn result_is(r: ToolResult, o: Result<Seq<char>, Seq<char>>) -> bool {
    match o {
        Ok(t) => r.success && r.output@ == t && r.error is None,
        Err(e) => !r.success && r.output@ == Seq::<char>::empty() && opt_text(r.error) == Some(e),
    }
}

pub(crate) fn str_arg_or(args: &JsonValue, key: &str, default: &str) -> (r: String)
    ensures
        r@ == string_arg_or(*args, key@, default@),
{
    match str_arg(args, key) {
        Some(s) => s,
        None => default.to_string(),
    }
}

fn utf8_len_exceeds_4096(t: &[char]) -> (b: bool)
    ensures
        b == (utf8_len(t@) > 4096),
{
    let mut n: u64 = 0;
    let mut i: usize = 0;
    while i < t.len() && n <= 4096
        invariant
            i <= t.len(),
            n == utf8_len(t@.take(i as int)),
            n <= 4100,
        decreases t.len() - i,
    {
        assert(t@.take(i + 1).drop_last() == t@.take(i as int));
        n = n + char_utf8_width(t[i]);
        i = i + 1;
    }
    proof {
        crate::evolve::lemma_utf8_len_prefix(t@, i as int);
        if i == t.len() {
            assert(t@.take(t@.len() as int) == t@);
        }
    }
    n > 4096
}

impl TextToSpeechTool {
    /// The request that `args` ask for at time `now_secs`, or the error
    /// result refusing it: `text` is required and at most 4096 bytes, an API
    /// key must be configured; `voice`, `model` and `format` default to
    /// `nova`, `tts-1` and `mp3`, and the audio goes to `output_path` or
    /// `/tmp/obc_tts_<now>.<format>`.
    pub fn plan(&self, args: &JsonValue, now_secs: u64) -> (r: Result<TtsRequest, ToolResult>)
        ensures
            match r {
                Err(e) => !e.success && e.output@.len() == 0 && tts_refusal(*args, self.api_key) is Some && e.error is Some && e.error->0@ == tts_refusal(*args, self.api_key)->0,
                Ok(q) => {
                    let text = string_arg(*args, "text"@)->0;
                    let voice = string_arg_or(*args, "voice"@, "nova"@);
                    let model = string_arg_or(*args, "model"@, "tts-1"@);
                    let format = string_arg_or(*args, "format"@, "mp3"@);
                    &&& tts_refusal(*args, self.api_key) is None
                    &&& q.url@ == self.api_base@ + "/audio/speech"@
                    &&& q.api_key@ == self.api_key->0@
                    &&& q.voice@ == voice
                    &&& q.model@ == model
                    &&& q.output_path@ == string_arg_or(
                        *args,
                        "output_path"@,
                        "/tmp/obc_tts_"@ + decimal(now_secs as nat) + "."@ + format,
                    )
                    &&& json_view(q.body) == JsonView::Object(
                        seq![
                            ("input"@, JsonView::Str(text)),
                            ("model"@, JsonView::Str(model)),
                            ("response_format"@, JsonView::Str(format)),
                            ("voice"@, JsonView::Str(voice)),
                        ],
                    )
                },
            },
    {
        let text = match str_arg(args, "text") {
            Some(t) => t,
            None => return Err(ToolResult::err("Missing required parameter: text".to_string())),
        };
        if utf8_len_exceeds_4096(&chars_of(text.as_str())) {
            return Err(ToolResult::err("Text exceeds 4096 character limit for TTS".to_string()));
        }
        let api_key = match &self.api_key {
            Some(k) => k.clone(),
            None => return Err(ToolResult::err("OPENAI_API_KEY not set".to_string())),
        };
        let voice = str_arg_or(args, "voice", "nova");
        let model = str_arg_or(args, "model", "tts-1");
        let format = str_arg_or(args, "format", "mp3");
        let output_path = match str_arg(args, "output_path") {
            Some(p) => p,
            None => {
                let mut p = chars_of("/tmp/obc_tts_");
                push_decimal(&mut p, now_secs);
                p.push('.');
                extend_str(&mut p, format.as_str());
                assert(p@ =~= "/tmp/obc_tts_"@ + decimal(now_secs as nat) + "."@ + format@) by {
                    reveal_strlit(".");
                }
                string_of(&p)
            },
        };
        let mut url = chars_of(self.api_base.as_str());
        extend_str(&mut url, "/audio/speech");
        let fields = vec![
            ("input".to_string(), JsonValue::String(text)),
            ("model".to_string(), JsonValue::String(model.clone())),
            ("response_format".to_string(), JsonValue::String(format)),
            ("voice".to_string(), JsonValue::String(voice.clone())),
        ];
        proof {
            crate::json::lemma_fields_index(fields@);
            assert(crate::json::fields_view(fields@, 0) =~= seq![
                ("input"@, JsonView::Str(string_arg(*args, "text"@)->0)),
                ("model"@, JsonView::Str(model@)),
                ("response_format"@, JsonView::Str(string_arg_or(*args, "format"@, "mp3"@))),
                ("voice"@, JsonView::Str(voice@)),
            ]);
        }
        Ok(
            TtsRequest {
                url: string_of(&url),
                api_key,
                body: JsonValue::Object(fields),
                output_path,
                voice,
                model,
            },
        )
    }

    /// The result reported once `size` bytes of audio were saved.
    pub fn success_message(q: &TtsRequest, size: u64) -> (s: String)
        ensures
            s@ == "Speech generated successfully.\nFile: "@ + q.output_path@ + "\nSize: "@ + decimal(
                size as nat,
            ) + " bytes\nVoice: "@ + q.voice@ + "\nModel: "@ + q.model@,
    {
        let mut v = chars_of("Speech generated successfully.\nFile: ");
        extend_str(&mut v, q.output_path.as_str());
        extend_str(&mut v, "\nSize: ");
        push_decimal(&mut v, size);
        extend_str(&mut v, " bytes\nVoice: ");
        extend_str(&mut v, q.voice.as_str());
        extend_str(&mut v, "\nModel: ");
        extend_str(&mut v, q.model.as_str());
        string_of(&v)
    }
}


// ── Images for vision models ─────────────────────────────────────────────────

/// The standard base64 alphabet.
pub open spec fn b64_digit(n: nat) -> char {
    if n < 26 {
        (('A' as nat) + n) as char
    } else if n < 52 {
        (('a' as nat) + (n - 26)) as char
    } else if n < 62 {
        (('0' as nat) + (n - 52)) as char
    } else if n == 62 {
        '+'
    } else {
        '/'
    }
}

/// Standard base64 with `=` padding: each 3 bytes become 4 digits of 6 bits,
/// high bits first; a final 1 or 2 bytes are padded to 4 characters.
pub open spec fn base64_std(b: Seq<u8>) -> Seq<char>
    decreases b.len(),
{
    if b.len() == 0 {
        seq![]
    } else if b.len() == 1 {
        seq![b64_digit((b[0] / 4) as nat), b64_digit(((b[0] % 4) * 16) as nat), '=', '=']
    } else if b.len() == 2 {
        seq![
            b64_digit((b[0] / 4) as nat),
            b64_digit(((b[0] % 4) * 16 + b[1] / 16) as nat),
            b64_digit(((b[1] % 16) * 4) as nat),
            '=',
        ]
    } else {
        seq![
            b64_digit((b[0] / 4) as nat),
            b64_digit(((b[0] % 4) * 16 + b[1] / 16) as nat),
            b64_digit(((b[1] % 16) * 4 + b[2] / 64) as nat),
            b64_digit((b[2] % 64) as nat),
        ] + base64_std(b.skip(3))
    }
}

/// Calls `base64::engine::general_purpose::STANDARD.encode`, which writes
/// standard base64 with padding. It panics when the encoded length would
/// not fit a `usize`, which `requires` rules out.
#[verifier::external_body]
fn base64_encode(data: &[u8]) -> (s: String)
    requires
        4 * ((data@.len() + 2) / 3) <= usize::MAX,
    ensures
        s@ == base64_std(data@),
{
    base64::Engine::encode(&base64::engine::general_purpose::STANDARD, data)
}

/// The extension `std::path::Path::extension` finds in a path (named, not
/// stated).
pub uninterp spec fn path_extension(path: Seq<char>) -> Option<Seq<char>>;

/// Calls `std::path::Path::extension`. Claims only that the result is a
/// function of the path, named `path_extension`.
#[verifier::external_body]
fn extension_of(path: &str) -> (e: Option<String>)
    ensures
        match e {
            Some(x) => path_extension(path@) == Some(x@),
            None => path_extension(path@) is None,
        },
{
    std::path::Path::new(path).extension().map(|e| e.to_string_lossy().to_string())
}

/// The image MIME type a file extension stands for (JPEG by default).
pub open spec fn mime_for(ext: Option<Seq<char>>) -> Seq<char> {
    match ext {
        Some(e) => {
            let l = crate::text::lowercase(e);
            if l == "jpg"@ || l == "jpeg"@ {
                "image/jpeg"@
            } else if l == "png"@ {
                "image/png"@
            } else if l == "webp"@ {
                "image/webp"@
            } else if l == "gif"@ {
                "image/gif"@
            } else if l == "bmp"@ {
                "image/bmp"@
            } else {
                "image/jpeg"@
            }
        },
        None => "image/jpeg"@,
    }
}

/// `s` up to its first `;` (all of it when it has none).
pub open spec fn before_semicolon(s: Seq<char>) -> Seq<char> {
    match crate::text::find_from(s, seq![';'], 0) {
        Some(i) => s.take(i),
        None => s,
    }
}

/// An image ready to be sent to a vision-capable model.
#[derive(Debug, Clone, PartialEq, Eq)]
pub struct EncodedImage {
    /// MIME type (e.g. "image/jpeg").
    pub mime_type: String,
    /// Base64-encoded image data.
    pub data: String,
    /// Original source path or URL.
    pub source: String,
}

/// The MIME type of the image file at `path`, by its extension in any case.
pub fn image_mime_type(path: &str) -> (m: String)
    ensures
        m@ == mime_for(path_extension(path@)),
{
    match extension_of(path) {
        Some(e) => {
            let l = chars_of(crate::text::to_lowercase(e.as_str()).as_str());
            if crate::text::chars_eq(&l, &chars_of("jpg")) || crate::text::chars_eq(&l, &chars_of("jpeg")) {
                "image/jpeg".to_string()
            } else if crate::text::chars_eq(&l, &chars_of("png")) {
                "image/png".to_string()
            } else if crate::text::chars_eq(&l, &chars_of("webp")) {
                "image/webp".to_string()
            } else if crate::text::chars_eq(&l, &chars_of("gif")) {
                "image/gif".to_string()
            } else if crate::text::chars_eq(&l, &chars_of("bmp")) {
                "image/bmp".to_string()
            } else {
                "image/jpeg".to_string()
            }
        },
        None => "image/jpeg".to_string(),
    }
}

impl EncodedImage {
    /// The image with the bytes read from the local file `path`: its MIME
    /// type by extension, its data in base64.
    pub fn from_file_bytes(path: &str, bytes: &[u8]) -> (img: Self)
        requires
            4 * ((bytes@.len() + 2) / 3) <= usize::MAX,
        ensures
            img.mime_type@ == mime_for(path_extension(path@)),
            img.data@ == base64_std(bytes@),
            img.source@ == path@,
    {
        EncodedImage { mime_type: image_mime_type(path), data: base64_encode(bytes), source: path.to_string() }
    }

    /// The image fetched from `url`: its MIME type is the reply's
    /// `content-type` up to the first `;` (JPEG when the reply has none),
    /// its data the body in base64.
    pub fn from_remote(url: &str, content_type: Option<&str>, bytes: &[u8]) -> (img: Self)
        requires
            4 * ((bytes@.len() + 2) / 3) <= usize::MAX,
        ensures
            img.mime_type@ == match content_type {
                Some(c) => before_semicolon(c@),
                None => "image/jpeg"@,
            },
            img.data@ == base64_std(bytes@),
            img.source@ == url@,
    {
        let mime = match content_type {
            Some(c) => {
                let t = chars_of(c);
                let semi = vec![';'];
                assert(semi@ =~= seq![';']);
                match crate::text::find(&t, &semi, 0) {
                    Some(i) => {
                        proof {
                            crate::text::lemma_find_from_some(t@, semi@, 0);
                        }
                        string_of(&crate::text::slice_chars(&t, 0, i))
                    },
                    None => c.to_string(),
                }
            },
            None => "image/jpeg".to_string(),
        };
        EncodedImage { mime_type: mime, data: base64_encode(bytes), source: url.to_string() }
    }

    /// An OpenAI `image_url` content part carrying the image as a data URL.
    pub fn to_openai_part(&self, detail: &str) -> (v: JsonValue)
        ensures
            json_view(v) == JsonView::Object(
                seq![
                    (
                        "image_url"@,
                        JsonView::Object(
                            seq![
                                ("detail"@, JsonView::Str(detail@)),
                                ("url"@, JsonView::Str("data:"@ + self.mime_type@ + ";base64,"@ + self.data@)),
                            ],
                        ),
                    ),
                    ("type"@, JsonView::Str("image_url"@)),
                ],
            ),
    {
        let mut url = chars_of("data:");
        extend_str(&mut url, self.mime_type.as_str());
        extend_str(&mut url, ";base64,");
        extend_str(&mut url, self.data.as_str());
        let inner = vec![
            ("detail".to_string(), JsonValue::String(detail.to_string())),
            ("url".to_string(), JsonValue::String(string_of(&url))),
        ];
        proof {
            crate::json::lemma_fields_index(inner@);
        }
        let ghost iv = crate::json::fields_view(inner@, 0);
        assert(iv =~= seq![
            ("detail"@, JsonView::Str(detail@)),
            ("url"@, JsonView::Str("data:"@ + self.mime_type@ + ";base64,"@ + self.data@)),
        ]);
        let outer = vec![
            ("image_url".to_string(), JsonValue::Object(inner)),
            ("type".to_string(), JsonValue::String("image_url".to_string())),
        ];
        proof {
            crate::json::lemma_fields_index(outer@);
            assert(crate::json::fields_view(outer@, 0) =~= seq![
                ("image_url"@, JsonView::Object(iv)),
                ("type"@, JsonView::Str("image_url"@)),
            ]);
        }
        JsonValue::Object(outer)
    }

    /// An Anthropic base64 image source block.
    pub fn to_anthropic_source(&self) -> (v: JsonValue)
        ensures
            json_view(v) == JsonView::Object(
                seq![
                    ("data"@, JsonView::Str(self.data@)),
                    ("media_type"@, JsonView::Str(self.mime_type@)),
                    ("type"@, JsonView::Str("base64"@)),
                ],
            ),
    {
        let f = vec![
            ("data".to_string(), JsonValue::String(self.data.clone())),
            ("media_type".to_string(), JsonValue::String(self.mime_type.clone())),
            ("type".to_string(), JsonValue::String("base64".to_string())),
        ];
        proof {
            crate::json::lemma_fields_index(f@);
            assert(crate::json::fields_view(f@, 0) =~= seq![
                ("data"@, JsonView::Str(self.data@)),
                ("media_type"@, JsonView::Str(self.mime_type@)),
                ("type"@, JsonView::Str("base64"@)),
            ]);
        }
        JsonValue::Object(f)
    }
}

} // verus!
