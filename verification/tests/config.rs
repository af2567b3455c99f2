//! Configuration: layering, inheritance, every way it can be wrong, and what the user is told
//! about it.

use voice_commander::config::document::{merge_into, Item, Table};
use voice_commander::config::keys::{edit_distance, suggest, unknown_keys};
use voice_commander::config::layer::{assemble, parse_document};
use voice_commander::config::load::{select_drop_ins, stack};
use voice_commander::config::profile::TranscriberRef;
use voice_commander::config::{
    AudioAttach, AudioConfig, AudioFormat, CaptureConfig, CaptureMode, ClipboardSink,
    CommandPresenter, CommandSink, CommandTranscriber, Config, ConfigError, ContinuationConfig,
    DaemonConfig, Defaults, DeviceSelector, FeedbackConfig, FileSink, GapMode, Hex, HttpMethod,
    HttpSink, HttpSinkBody, HttpTranscriber, Issue, Layer, LevelsConfig, Loaded, NotifyPresenter,
    NotifySink, OnError, OpenAiTranscriber, OverlayColours, OverlayConfig, OverlayMotion,
    OverlayPosition, PresenterConfig, PresenterKind, Profile, ResponseExtract, ResponseFormat,
    RetryConfig, SecretRef, SessionConfig, SinkConfig, SinkKind, SinkMode, SocketPresenter,
    StorageConfig, TextSource, TranscriberConfig, TranscriberKind, TriggerMode, TypeSink, TypeTool,
    Urgency, EMBEDDED_DEFAULT, EXAMPLE_CONFIG,
};
use voice_commander::config::{adapter, sink, transcriber};
use voice_commander::names::Named;
use voice_commander::single::{Single, Threshold};

// ── from a document to typed values and back ────────────────────────────────

fn need<'a>(table: &'a Table, key: &str) -> Result<&'a Item, String> {
    table.get(key).ok_or(format!("missing field `{key}`"))
}

fn text(item: &Item) -> Result<String, String> {
    match item {
        Item::Text(text) => Ok(text.clone()),
        other => Err(format!("expected a string, got {other:?}")),
    }
}

fn whole(item: &Item) -> Result<u64, String> {
    item.as_integer()
        .and_then(|n| u64::try_from(n).ok())
        .ok_or(format!("expected a number, got {item:?}"))
}

fn number(item: &Item) -> Result<u32, String> {
    u32::try_from(whole(item)?).map_err(|error| error.to_string())
}

fn truth(item: &Item) -> Result<bool, String> {
    match item {
        Item::Boolean(value) => Ok(*value),
        other => Err(format!("expected a boolean, got {other:?}")),
    }
}

fn table(item: &Item) -> Result<&Table, String> {
    item.as_table().ok_or(format!("expected a table, got {item:?}"))
}

fn list(item: &Item) -> Result<Vec<String>, String> {
    item.as_array()
        .ok_or(format!("expected an array, got {item:?}"))?
        .iter()
        .map(text)
        .collect()
}

fn threshold(item: &Item) -> Result<Threshold, String> {
    let value = match item {
        Item::Float(bits) => f64::from_bits(*bits) as f32,
        Item::Integer(n) => *n as f32,
        other => return Err(format!("expected a number, got {other:?}")),
    };
    Ok(Threshold { value: Single { bits: value.to_bits() }, text: value.to_string() })
}

fn texts(table: &Table) -> Result<Named<String>, String> {
    let mut out = Named::new();
    for (key, value) in table.entries.entries() {
        out.insert(key.clone(), text(value)?);
    }
    Ok(out)
}

fn optional_texts(table: &Table, key: &str) -> Result<Named<String>, String> {
    match table.get(key) {
        Some(item) => texts(self::table(item)?),
        None => Ok(Named::new()),
    }
}

fn optional_text(table: &Table, key: &str) -> Result<Option<String>, String> {
    table.get(key).map(text).transpose()
}

fn optional_list(table: &Table, key: &str) -> Result<Vec<String>, String> {
    Ok(table.get(key).map(list).transpose()?.unwrap_or_default())
}

fn flag(table: &Table, key: &str, default: bool) -> Result<bool, String> {
    Ok(table.get(key).map(truth).transpose()?.unwrap_or(default))
}

fn text_or(table: &Table, key: &str, default: &str) -> Result<String, String> {
    Ok(optional_text(table, key)?.unwrap_or(default.to_owned()))
}

fn capture(table: &Table) -> Result<CaptureConfig, String> {
    Ok(CaptureConfig {
        mode: match text(need(table, "mode")?)?.as_str() {
            "preroll" => CaptureMode::Preroll,
            "warm" => CaptureMode::Warm,
            "on_demand" => CaptureMode::OnDemand,
            other => return Err(format!("unknown variant `{other}`")),
        },
        pre_roll_ms: number(need(table, "pre_roll_ms")?)?,
        idle_release_secs: number(need(table, "idle_release_secs")?)?,
        device: DeviceSelector::from_text(text(need(table, "device")?)?),
    })
}

fn session(table: &Table) -> Result<SessionConfig, String> {
    Ok(SessionConfig {
        cooldown_ms: number(need(table, "cooldown_ms")?)?,
        max_recording_secs: number(need(table, "max_recording_secs")?)?,
        max_total_secs: number(need(table, "max_total_secs")?)?,
    })
}

fn continuation(table: &Table) -> Result<ContinuationConfig, String> {
    Ok(ContinuationConfig {
        gap: match text(need(table, "gap")?)?.as_str() {
            "keep" => GapMode::Keep,
            "drop" => GapMode::Drop,
            "silence" => GapMode::Silence,
            other => return Err(format!("unknown variant `{other}`")),
        },
        silence_ms: number(need(table, "silence_ms")?)?,
        max_segments: number(need(table, "max_segments")?)?,
    })
}

fn retry(table: &Table) -> Result<RetryConfig, String> {
    match table.get("retry") {
        Some(item) => {
            let table = self::table(item)?;
            Ok(RetryConfig {
                attempts: number(need(table, "attempts")?)?,
                backoff_ms: whole(need(table, "backoff_ms")?)?,
            })
        }
        None => Ok(RetryConfig::default()),
    }
}

fn method(table: &Table) -> Result<HttpMethod, String> {
    match optional_text(table, "method")?.as_deref() {
        None | Some("POST") => Ok(HttpMethod::Post),
        Some("PUT") => Ok(HttpMethod::Put),
        Some("PATCH") => Ok(HttpMethod::Patch),
        Some(other) => Err(format!("unknown variant `{other}`")),
    }
}

fn secret(table: &Table) -> Result<SecretRef, String> {
    Ok(SecretRef {
        env: optional_text(table, "env")?,
        command: table.get("command").map(list).transpose()?,
    })
}

fn audio_attach(table: &Table) -> Result<AudioAttach, String> {
    let field = text_or(table, "field", adapter::DEFAULT_AUDIO_FIELD)?;
    match text(need(table, "how")?)?.as_str() {
        "multipart" => Ok(AudioAttach::Multipart { field }),
        "raw_body" => Ok(AudioAttach::RawBody),
        "base64_json" => Ok(AudioAttach::Base64Json { field }),
        other => Err(format!("unknown variant `{other}`")),
    }
}

fn response(table: &Table) -> Result<ResponseExtract, String> {
    let Some(item) = table.get("response") else {
        return Ok(ResponseExtract::default());
    };
    let table = self::table(item)?;
    Ok(ResponseExtract {
        format: match text(need(table, "format")?)?.as_str() {
            "json" => ResponseFormat::Json,
            "text" => ResponseFormat::Text,
            other => return Err(format!("unknown variant `{other}`")),
        },
        text_pointer: text_or(table, "text_pointer", adapter::DEFAULT_TEXT_POINTER)?,
    })
}

fn transcriber_entry(table: &Table) -> Result<TranscriberConfig, String> {
    let kind = match text(need(table, "type")?)?.as_str() {
        "openai" => TranscriberKind::Openai(OpenAiTranscriber {
            model: text_or(table, "model", transcriber::DEFAULT_OPENAI_MODEL)?,
            base_url: text_or(table, "base_url", transcriber::DEFAULT_OPENAI_BASE_URL)?,
            api_key: secret(self::table(need(table, "api_key")?)?)?,
            language: optional_text(table, "language")?,
            prompt: optional_text(table, "prompt")?,
            temperature: table.get("temperature").map(threshold).transpose()?,
        }),
        "http" => TranscriberKind::Http(HttpTranscriber {
            url: text(need(table, "url")?)?,
            method: method(table)?,
            headers: optional_texts(table, "headers")?,
            audio: audio_attach(self::table(need(table, "audio")?)?)?,
            form: optional_texts(table, "form")?,
            json: optional_texts(table, "json")?,
            query: optional_texts(table, "query")?,
            response: response(table)?,
        }),
        "command" => {
            let source = self::table(need(table, "text")?)?;
            TranscriberKind::Command(CommandTranscriber {
                cmd: list(need(table, "cmd")?)?,
                text: match text(need(source, "from")?)?.as_str() {
                    "stdout" => TextSource::Stdout,
                    "file" => TextSource::File { path: text(need(source, "path")?)? },
                    other => return Err(format!("unknown variant `{other}`")),
                },
                env: optional_texts(table, "env")?,
            })
        }
        other => return Err(format!("unknown variant `{other}`")),
    };
    Ok(TranscriberConfig {
        kind,
        timeout_ms: match table.get("timeout_ms") {
            Some(item) => whole(item)?,
            None => transcriber::DEFAULT_TRANSCRIBER_TIMEOUT_MS,
        },
        retry: retry(table)?,
    })
}

fn sink_entry(table: &Table) -> Result<SinkConfig, String> {
    let kind = match text(need(table, "type")?)?.as_str() {
        "command" => SinkKind::Command(CommandSink {
            cmd: list(need(table, "cmd")?)?,
            env: optional_texts(table, "env")?,
            stdin_json: flag(table, "stdin_json", true)?,
            cwd: optional_text(table, "cwd")?,
        }),
        "http" => SinkKind::Http(HttpSink {
            url: text(need(table, "url")?)?,
            method: method(table)?,
            headers: optional_texts(table, "headers")?,
            body: HttpSinkBody::SessionJson,
        }),
        "clipboard" => {
            SinkKind::Clipboard(ClipboardSink { primary: flag(table, "primary", false)? })
        }
        "type" => SinkKind::Type(TypeSink { tool: TypeTool::Auto, key_delay_ms: 0 }),
        "notify" => SinkKind::Notify(NotifySink {
            summary: text_or(table, "summary", sink::DEFAULT_NOTIFY_SUMMARY)?,
            body: text_or(table, "body", sink::DEFAULT_NOTIFY_BODY)?,
            urgency: Urgency::Normal,
            expire_ms: sink::DEFAULT_NOTIFY_EXPIRE_MS,
        }),
        "file" => SinkKind::File(FileSink {
            path: text(need(table, "path")?)?,
            template: text_or(table, "template", sink::DEFAULT_FILE_TEMPLATE)?,
            append: flag(table, "append", true)?,
        }),
        other => return Err(format!("unknown variant `{other}`")),
    };
    Ok(SinkConfig {
        kind,
        requires_text: table.get("requires_text").map(truth).transpose()?,
        on_error: match optional_text(table, "on_error")?.as_deref() {
            None | Some("ignore") => OnError::Ignore,
            Some("fail_session") => OnError::FailSession,
            Some(other) => return Err(format!("unknown variant `{other}`")),
        },
        timeout_ms: match table.get("timeout_ms") {
            Some(item) => whole(item)?,
            None => sink::DEFAULT_SINK_TIMEOUT_MS,
        },
        retry: retry(table)?,
    })
}

fn presenter_entry(table: &Table) -> Result<PresenterConfig, String> {
    Ok(PresenterConfig {
        kind: match text(need(table, "type")?)?.as_str() {
            "socket" => PresenterKind::Socket(SocketPresenter {}),
            "command" => PresenterKind::Command(CommandPresenter {
                cmd: list(need(table, "cmd")?)?,
                env: optional_texts(table, "env")?,
                events: optional_list(table, "events")?,
            }),
            "notify" => {
                PresenterKind::Notify(NotifyPresenter { per_sink: flag(table, "per_sink", false)? })
            }
            other => return Err(format!("unknown variant `{other}`")),
        },
    })
}

fn profile_entry(table: &Table) -> Result<Profile, String> {
    let transcriber = match table.get("transcriber") {
        None => TranscriberRef::Absent,
        Some(Item::Boolean(on)) => TranscriberRef::Switch(*on),
        Some(item) => TranscriberRef::Name(text(item)?),
    };
    Ok(Profile {
        trigger: match optional_text(table, "trigger")?.as_deref() {
            None | Some("push_to_talk") => TriggerMode::PushToTalk,
            Some("toggle") => TriggerMode::Toggle,
            Some(other) => return Err(format!("unknown variant `{other}`")),
        },
        transcriber: transcriber
            .resolve()
            .map_err(|expected| format!("invalid value: boolean `true`, expected {expected}"))?,
        sinks: optional_list(table, "sinks")?,
        sink_mode: match optional_text(table, "sink_mode")?.as_deref() {
            None | Some("parallel") => SinkMode::Parallel,
            Some("sequential") => SinkMode::Sequential,
            Some(other) => return Err(format!("unknown variant `{other}`")),
        },
        capture: capture(self::table(need(table, "capture")?)?)?,
        session: session(self::table(need(table, "session")?)?)?,
        continuation: continuation(self::table(need(table, "continuation")?)?)?,
    })
}

fn named<V>(
    table: &Table,
    key: &str,
    entry: impl Fn(&Table) -> Result<V, String>,
) -> Result<Named<V>, String> {
    let mut out = Named::new();
    if let Some(item) = table.get(key) {
        for (name, value) in self::table(item)?.entries.entries() {
            out.insert(name.clone(), entry(self::table(value)?)?);
        }
    }
    Ok(out)
}

fn decode(document: &Table) -> Result<Config, String> {
    let section = |key: &str| table(need(document, key)?);
    let audio = section("audio")?;
    let levels = section("levels")?;
    let storage = section("storage")?;
    let feedback = section("feedback")?;
    let defaults = section("defaults")?;
    Ok(Config {
        daemon: match document.get("daemon") {
            Some(item) => {
                let daemon = table(item)?;
                DaemonConfig {
                    socket_path: optional_text(daemon, "socket_path")?,
                    autostart: flag(daemon, "autostart", false)?,
                    log_level: text_or(daemon, "log_level", "info")?,
                }
            }
            None => DaemonConfig::default(),
        },
        audio: AudioConfig {
            sample_rate: number(need(audio, "sample_rate")?)?,
            channels: number(need(audio, "channels")?)? as u16,
            format: match text(need(audio, "format")?)?.as_str() {
                "wav" => AudioFormat::Wav,
                "flac" => AudioFormat::Flac,
                "opus" => AudioFormat::Opus,
                other => return Err(format!("unknown variant `{other}`")),
            },
        },
        levels: LevelsConfig {
            silence_dbfs: threshold(need(levels, "silence_dbfs")?)?,
            too_quiet_dbfs: threshold(need(levels, "too_quiet_dbfs")?)?,
            speech_dbfs: threshold(need(levels, "speech_dbfs")?)?,
            silence_warn_after_ms: number(need(levels, "silence_warn_after_ms")?)?,
        },
        storage: StorageConfig {
            dir: optional_text(storage, "dir")?,
            max_age_days: number(need(storage, "max_age_days")?)?,
            max_total_bytes: whole(need(storage, "max_total_bytes")?)?,
            keep_audio_after_transcribe: truth(need(storage, "keep_audio_after_transcribe")?)?,
        },
        feedback: FeedbackConfig {
            enabled: truth(need(feedback, "enabled")?)?,
            listening: truth(need(feedback, "listening")?)?,
            processing: truth(need(feedback, "processing")?)?,
            processing_linger_ms: number(need(feedback, "processing_linger_ms")?)?,
            level_interval_ms: number(need(feedback, "level_interval_ms")?)?,
            presenters: list(need(feedback, "presenters")?)?,
        },
        defaults: Defaults {
            capture: capture(table(need(defaults, "capture")?)?)?,
            session: session(table(need(defaults, "session")?)?)?,
            continuation: continuation(table(need(defaults, "continuation")?)?)?,
        },
        transcribers: named(document, "transcribers", transcriber_entry)?,
        sinks: named(document, "sinks", sink_entry)?,
        presenters: named(document, "presenters", presenter_entry)?,
        profiles: named(document, "profiles", profile_entry)?,
    })
}

/// A table with these entries; the values do not matter, only which keys there are.
fn keys(names: &[&str]) -> Table {
    let mut out = Table::new();
    for name in names {
        out.insert((*name).to_owned(), Item::Integer(0));
    }
    out
}

fn with(mut outer: Table, key: &str, inner: Table) -> Table {
    outer.insert(key.to_owned(), Item::Table(inner));
    outer
}

fn map_keys(map: &Named<String>) -> Table {
    let mut out = Table::new();
    for name in map.keys() {
        out.insert(name, Item::Integer(0));
    }
    out
}

const CAPTURE: &[&str] = &["mode", "pre_roll_ms", "idle_release_secs", "device"];
const SESSION: &[&str] = &["cooldown_ms", "max_recording_secs", "max_total_secs"];
const CONTINUATION: &[&str] = &["gap", "silence_ms", "max_segments"];

fn sections(outer: Table) -> Table {
    let outer = with(outer, "capture", keys(CAPTURE));
    let outer = with(outer, "session", keys(SESSION));
    with(outer, "continuation", keys(CONTINUATION))
}

fn retry_keys(outer: Table) -> Table {
    with(outer, "retry", keys(&["attempts", "backoff_ms"]))
}

fn encode_transcriber(entry: &TranscriberConfig) -> Table {
    let common = match &entry.kind {
        TranscriberKind::Openai(openai) => {
            let mut table = keys(&["type", "timeout_ms", "model", "base_url"]);
            for (present, key) in [
                (openai.language.is_some(), "language"),
                (openai.prompt.is_some(), "prompt"),
                (openai.temperature.is_some(), "temperature"),
            ] {
                if present {
                    table.insert(key.to_owned(), Item::Integer(0));
                }
            }
            let mut secret = Table::new();
            if openai.api_key.env.is_some() {
                secret.insert("env".to_owned(), Item::Integer(0));
            }
            if openai.api_key.command.is_some() {
                secret.insert("command".to_owned(), Item::Integer(0));
            }
            with(table, "api_key", secret)
        }
        TranscriberKind::Http(http) => {
            let audio = match http.audio {
                AudioAttach::RawBody => keys(&["how"]),
                _ => keys(&["how", "field"]),
            };
            let table = keys(&["type", "timeout_ms", "url", "method"]);
            let table = with(table, "headers", map_keys(&http.headers));
            let table = with(table, "form", map_keys(&http.form));
            let table = with(table, "json", map_keys(&http.json));
            let table = with(table, "query", map_keys(&http.query));
            let table = with(table, "response", keys(&["format", "text_pointer"]));
            with(table, "audio", audio)
        }
        TranscriberKind::Command(command) => {
            let source = match command.text {
                TextSource::Stdout => keys(&["from"]),
                TextSource::File { .. } => keys(&["from", "path"]),
            };
            let table = keys(&["type", "timeout_ms", "cmd"]);
            let table = with(table, "env", map_keys(&command.env));
            with(table, "text", source)
        }
    };
    retry_keys(common)
}

fn encode_sink(entry: &SinkConfig) -> Table {
    let mut table = keys(&["type", "timeout_ms", "on_error"]);
    if entry.requires_text.is_some() {
        table.insert("requires_text".to_owned(), Item::Integer(0));
    }
    let own: &[&str] = match &entry.kind {
        SinkKind::Command(_) => &["cmd", "stdin_json"],
        SinkKind::Http(_) => &["url", "method"],
        SinkKind::Clipboard(_) => &["primary"],
        SinkKind::Type(_) => &["tool", "key_delay_ms"],
        SinkKind::Notify(_) => &["summary", "body", "urgency", "expire_ms"],
        SinkKind::File(_) => &["path", "template", "append"],
    };
    for key in own {
        table.insert((*key).to_owned(), Item::Integer(0));
    }
    if let SinkKind::Command(command) = &entry.kind {
        table = with(table, "env", map_keys(&command.env));
        if command.cwd.is_some() {
            table.insert("cwd".to_owned(), Item::Integer(0));
        }
    }
    if let SinkKind::Http(http) = &entry.kind {
        table = with(table, "headers", map_keys(&http.headers));
        table = with(table, "body", keys(&["kind"]));
    }
    retry_keys(table)
}

fn encode_presenter(entry: &PresenterConfig) -> Table {
    match &entry.kind {
        PresenterKind::Socket(_) => keys(&["type"]),
        PresenterKind::Notify(_) => keys(&["type", "per_sink"]),
        PresenterKind::Command(command) => {
            with(keys(&["type", "cmd", "events"]), "env", map_keys(&command.env))
        }
    }
}

fn encode_all<V>(map: &Named<V>, entry: impl Fn(&V) -> Table) -> Table {
    let mut out = Table::new();
    for (name, value) in map.entries() {
        out.insert(name.clone(), Item::Table(entry(value)));
    }
    out
}

/// The document a configuration serializes back to.
fn encode(config: &Config) -> Table {
    let mut daemon = keys(&["autostart", "log_level"]);
    if config.daemon.socket_path.is_some() {
        daemon.insert("socket_path".to_owned(), Item::Integer(0));
    }
    let mut storage = keys(&["max_age_days", "max_total_bytes", "keep_audio_after_transcribe"]);
    if config.storage.dir.is_some() {
        storage.insert("dir".to_owned(), Item::Integer(0));
    }
    let out = with(Table::new(), "daemon", daemon);
    let out = with(out, "audio", keys(&["sample_rate", "channels", "format"]));
    let out = with(
        out,
        "levels",
        keys(&["silence_dbfs", "too_quiet_dbfs", "speech_dbfs", "silence_warn_after_ms"]),
    );
    let out = with(out, "storage", storage);
    let out = with(
        out,
        "feedback",
        keys(&[
            "enabled",
            "listening",
            "processing",
            "processing_linger_ms",
            "level_interval_ms",
            "presenters",
        ]),
    );
    let out = with(out, "defaults", sections(Table::new()));
    let out = with(out, "transcribers", encode_all(&config.transcribers, encode_transcriber));
    let out = with(out, "sinks", encode_all(&config.sinks, encode_sink));
    let out = with(out, "presenters", encode_all(&config.presenters, encode_presenter));
    with(
        out,
        "profiles",
        encode_all(&config.profiles, |_| {
            sections(keys(&["trigger", "transcriber", "sinks", "sink_mode"]))
        }),
    )
}

fn layer(source: &str, text: &str) -> Layer {
    Layer::new(source.to_owned(), text.to_owned())
}

fn from_layers(layers: &[Layer]) -> Result<Loaded, ConfigError> {
    let document = assemble(layers)?;
    match decode(&document.resolved) {
        Ok(config) => {
            let round_tripped = encode(&config);
            config.judge(&document.written, Some(&round_tripped))
        }
        Err(message) => Err(Config::untyped(message)),
    }
}

fn try_load(text: &str) -> Result<Loaded, ConfigError> {
    from_layers(&[layer("<embedded>", EMBEDDED_DEFAULT), layer("config.toml", text)])
}

fn load(layers: &[(&str, &str)]) -> Loaded {
    let mut all = vec![layer("<embedded>", EMBEDDED_DEFAULT)];
    all.extend(layers.iter().map(|(name, text)| layer(name, text)));
    from_layers(&all).expect("configuration should load")
}

fn profile<'a>(loaded: &'a Loaded, name: &str) -> &'a Profile {
    loaded.config.profiles.get(name).expect("the profile should exist")
}

fn errors(text: &str) -> Vec<Issue> {
    match try_load(text) {
        Err(ConfigError::Invalid { issues }) => issues,
        Err(other) => panic!("expected validation errors, got {}", other.to_text()),
        Ok(_) => panic!("expected this configuration to be rejected:\n{text}"),
    }
}

fn warnings(text: &str) -> Vec<Issue> {
    try_load(text).expect("expected this to load with warnings").warnings
}

fn assert_reports(issues: &[Issue], path: &str, needle: &str) {
    let matched =
        issues.iter().any(|issue| issue.path == path && issue.message.contains(needle));
    assert!(
        matched,
        "expected an issue at {path:?} mentioning {needle:?}, got: {issues:#?}"
    );
}

// ── the built-in configuration ──────────────────────────────────────────────

#[test]
fn embedded_default_loads_with_no_user_config() {
    let loaded = from_layers(&[layer("<embedded>", EMBEDDED_DEFAULT)])
        .expect("the built-in default must always load");
    let profile = loaded.config.profiles.get("default").expect("a `default` profile");

    assert_eq!(profile.transcriber, None);
    assert!(profile.sinks.is_empty());
    assert_eq!(profile.trigger, TriggerMode::PushToTalk);
}

#[test]
fn embedded_default_values_match_the_documented_ones() {
    let loaded = try_load("").expect("loads");
    let config = &loaded.config;

    assert_eq!(config.audio.sample_rate, 16_000);
    assert_eq!(config.audio.channels, 1);
    assert_eq!(config.defaults.capture.mode, CaptureMode::Preroll);
    assert_eq!(config.defaults.capture.pre_roll_ms, 500);
    assert_eq!(config.defaults.capture.idle_release_secs, 300);
    assert_eq!(config.defaults.session.cooldown_ms, 1_500);
    assert_eq!(config.defaults.session.max_recording_secs, 120);
    assert_eq!(config.defaults.continuation.gap, GapMode::Keep);
    assert_eq!(config.defaults.continuation.max_segments, 5);
    assert_eq!(config.feedback.level_interval_ms, 50);
}

#[test]
fn shipped_example_config_is_valid() {
    let loaded = from_layers(&[
        layer("<embedded>", EMBEDDED_DEFAULT),
        layer("example.toml", EXAMPLE_CONFIG),
    ])
    .expect("the shipped example must be valid");

    assert!(loaded.config.profiles.contains_key("dictate"));
    assert!(loaded.config.profiles.contains_key("memo"));
    assert_eq!(profile(&loaded, "memo").transcriber, None);
    assert_eq!(profile(&loaded, "meeting").trigger, TriggerMode::Toggle);
}

#[test]
fn shipped_example_config_raises_no_warnings_about_itself() {
    let loaded = from_layers(&[
        layer("<embedded>", EMBEDDED_DEFAULT),
        layer("example.toml", EXAMPLE_CONFIG),
    ])
    .expect("valid");

    let unused: Vec<&Issue> = loaded
        .warnings
        .iter()
        .filter(|issue| issue.message.contains("no profile uses it"))
        .collect();
    assert!(unused.is_empty(), "example has unused definitions: {unused:?}");
}

// ── layering ────────────────────────────────────────────────────────────────

const SINKS: &str = r#"
[sinks.a]
type = "command"
cmd = ["true"]
[sinks.b]
type = "command"
cmd = ["true"]
"#;

#[test]
fn later_layers_win_key_by_key() {
    let loaded = load(&[
        ("config.toml", "[audio]\nsample_rate = 48000\n"),
        ("conf.d/10-tweak.toml", "[audio]\nchannels = 2\n"),
    ]);

    assert_eq!(loaded.config.audio.sample_rate, 48_000);
    assert_eq!(loaded.config.audio.channels, 2);
    assert_eq!(loaded.config.feedback.level_interval_ms, 50);
}

#[test]
fn arrays_replace_rather_than_accumulate() {
    let loaded = load(&[
        ("config.toml", SINKS),
        ("config.toml", "[profiles.p]\nsinks = [\"a\", \"b\"]\n"),
        ("conf.d/99-override.toml", "[profiles.p]\nsinks = [\"a\"]\n"),
    ]);

    assert_eq!(profile(&loaded, "p").sinks, vec!["a".to_owned()]);
}

#[test]
fn profiles_inherit_every_default_section() {
    let loaded = load(&[("config.toml", "[profiles.p]\n")]);
    let profile = profile(&loaded, "p");

    assert_eq!(profile.capture.mode, CaptureMode::Preroll);
    assert_eq!(profile.capture.pre_roll_ms, 500);
    assert_eq!(profile.session.cooldown_ms, 1_500);
    assert_eq!(profile.continuation.gap, GapMode::Keep);
}

#[test]
fn a_profile_override_is_a_patch_not_a_replacement() {
    let loaded = load(&[(
        "config.toml",
        r#"
[profiles.p]
capture = { pre_roll_ms = 900 }
session = { cooldown_ms = 4000 }
"#,
    )]);
    let profile = profile(&loaded, "p");

    assert_eq!(profile.capture.pre_roll_ms, 900);
    assert_eq!(profile.capture.mode, CaptureMode::Preroll);
    assert_eq!(profile.capture.idle_release_secs, 300);
    assert_eq!(profile.session.cooldown_ms, 4_000);
    assert_eq!(profile.session.max_recording_secs, 120);
}

#[test]
fn profiles_are_independent_of_each_other() {
    let loaded = load(&[(
        "config.toml",
        r#"
[profiles.fast]
capture = { mode = "warm", pre_roll_ms = 0 }
[profiles.slow]
capture = { pre_roll_ms = 2000 }
"#,
    )]);

    assert_eq!(profile(&loaded, "fast").capture.mode, CaptureMode::Warm);
    assert_eq!(profile(&loaded, "fast").capture.pre_roll_ms, 0);
    assert_eq!(profile(&loaded, "slow").capture.mode, CaptureMode::Preroll);
    assert_eq!(profile(&loaded, "slow").capture.pre_roll_ms, 2_000);
}

#[test]
fn changing_a_default_reaches_profiles_that_did_not_override_it() {
    let loaded = load(&[(
        "config.toml",
        r#"
[defaults.session]
cooldown_ms = 2500
[profiles.inherits]
[profiles.overrides]
session = { cooldown_ms = 100 }
"#,
    )]);

    assert_eq!(profile(&loaded, "inherits").session.cooldown_ms, 2_500);
    assert_eq!(profile(&loaded, "overrides").session.cooldown_ms, 100);
}

#[test]
fn transcription_can_be_switched_off_explicitly_or_by_omission() {
    let loaded = load(&[(
        "config.toml",
        r#"
[transcribers.t]
type = "command"
cmd = ["true"]
text = { from = "stdout" }
[profiles.explicit]
transcriber = false
[profiles.omitted]
[profiles.named]
transcriber = "t"
"#,
    )]);

    assert_eq!(profile(&loaded, "explicit").transcriber, None);
    assert_eq!(profile(&loaded, "omitted").transcriber, None);
    assert_eq!(profile(&loaded, "named").transcriber.as_deref(), Some("t"));
}

#[test]
fn sink_mode_defaults_to_parallel() {
    let loaded = load(&[("config.toml", "[profiles.p]\n")]);
    assert_eq!(profile(&loaded, "p").sink_mode, SinkMode::Parallel);
}

// ── dangling references ─────────────────────────────────────────────────────

#[test]
fn a_profile_naming_a_missing_transcriber_is_rejected() {
    let issues = errors("[profiles.p]\ntranscriber = \"nope\"\n");
    assert_reports(&issues, "profiles.p.transcriber", "no transcriber named");
}

#[test]
fn a_profile_naming_a_missing_sink_is_rejected() {
    let issues = errors("[profiles.p]\nsinks = [\"nope\"]\n");
    assert_reports(&issues, "profiles.p.sinks", "no sink named");
}

#[test]
fn a_near_miss_reference_suggests_the_intended_name() {
    let issues = errors(
        r#"
[transcribers.openai]
type = "openai"
api_key = { env = "K" }
[profiles.p]
transcriber = "openia"
"#,
    );
    let hint = issues
        .iter()
        .find(|issue| issue.path == "profiles.p.transcriber")
        .and_then(|issue| issue.hint.clone())
        .expect("a one-transposition typo deserves a suggestion");
    assert!(hint.contains("openai"), "unhelpful hint: {hint}");
}

// ── unknown keys ────────────────────────────────────────────────────────────

#[test]
fn a_misspelled_key_is_rejected_rather_than_ignored() {
    let issues = errors("[defaults.session]\ncooldown_msec = 3000\n");
    assert_reports(&issues, "defaults.session.cooldown_msec", "unknown configuration key");
}

#[test]
fn a_misspelled_key_suggests_the_real_one() {
    let issues = errors("[defaults.capture]\npre_roll_ms_ = 200\n");
    let hint = issues
        .iter()
        .find(|issue| issue.path.ends_with("pre_roll_ms_"))
        .and_then(|issue| issue.hint.clone())
        .expect("expected a suggestion");
    assert!(hint.contains("pre_roll_ms"), "unhelpful hint: {hint}");
}

#[test]
fn user_chosen_keys_in_free_form_maps_are_not_flagged() {
    let loaded = try_load(
        r#"
[transcribers.t]
type = "http"
url = "https://example.com/v1"
audio = { how = "multipart", field = "file" }
headers = { Authorization = "Bearer ${K}", "X-Whatever-They-Call-It" = "1" }
form = { model = "some-model", diarize = "true" }
[sinks.s]
type = "command"
cmd = ["true"]
env = { MY_OWN_VARIABLE = "1" }
[profiles.p]
transcriber = "t"
sinks = ["s"]
"#,
    );
    assert!(loaded.is_ok(), "free-form keys were wrongly rejected: {loaded:?}");
}

// ── values that parse but cannot work ───────────────────────────────────────

#[test]
fn an_unsupported_sample_rate_is_rejected_with_the_valid_set() {
    let issues = errors("[audio]\nsample_rate = 12345\n");
    assert_reports(&issues, "audio.sample_rate", "not a supported rate");
    let hint = issues[0].hint.clone().unwrap_or_default();
    assert!(hint.contains("16000"), "hint should list valid rates: {hint}");
}

#[test]
fn a_disabled_watchdog_is_rejected() {
    let issues = errors("[defaults.session]\nmax_recording_secs = 0\n");
    assert_reports(&issues, "profiles.default.session.max_recording_secs", "non-zero");
}

#[test]
fn a_total_limit_below_the_per_recording_limit_is_rejected() {
    let issues = errors("[defaults.session]\nmax_recording_secs = 300\nmax_total_secs = 60\n");
    assert_reports(&issues, "profiles.default.session.max_total_secs", "at least");
}

#[test]
fn a_positive_dbfs_threshold_is_rejected() {
    let issues = errors("[levels]\nsilence_dbfs = 6.0\n");
    assert_reports(&issues, "levels.silence_dbfs", "above full scale");
}

#[test]
fn inverted_level_thresholds_are_rejected() {
    let issues = errors("[levels]\nsilence_dbfs = -20.0\ntoo_quiet_dbfs = -50.0\n");
    assert_reports(&issues, "levels.silence_dbfs", "below levels.too_quiet_dbfs");
}

#[test]
fn an_api_key_with_no_source_is_rejected() {
    let issues = errors(
        r#"
[transcribers.t]
type = "openai"
api_key = {}
[profiles.p]
transcriber = "t"
"#,
    );
    assert_reports(&issues, "transcribers.t.api_key", "no source for the API key");
}

#[test]
fn a_url_without_a_scheme_is_rejected() {
    let issues = errors(
        r#"
[transcribers.t]
type = "http"
url = "api.example.com/v1"
audio = { how = "raw_body" }
[profiles.p]
transcriber = "t"
"#,
    );
    assert_reports(&issues, "transcribers.t.url", "not an http(s) URL");
}

#[test]
fn config_validation_an_empty_command_is_rejected() {
    let issues = errors(
        r#"
[sinks.s]
type = "command"
cmd = []
[profiles.p]
sinks = ["s"]
"#,
    );
    assert_reports(&issues, "sinks.s.cmd", "is empty");
}

#[test]
fn a_pre_roll_longer_than_the_cap_is_rejected() {
    let issues = errors("[defaults.capture]\npre_roll_ms = 60000\n");
    assert_reports(&issues, "profiles.default.capture.pre_roll_ms", "maximum");
}

#[test]
fn a_config_with_no_profiles_is_rejected() {
    let issues = match from_layers(&[layer(
        "only.toml",
        r#"
[audio]
sample_rate = 16000
channels = 1
format = "wav"
[levels]
silence_dbfs = -55.0
too_quiet_dbfs = -40.0
speech_dbfs = -45.0
silence_warn_after_ms = 1000
[storage]
max_age_days = 0
max_total_bytes = 0
keep_audio_after_transcribe = true
[feedback]
enabled = false
listening = false
processing = false
processing_linger_ms = 0
level_interval_ms = 50
presenters = []
[defaults.capture]
mode = "warm"
pre_roll_ms = 0
idle_release_secs = 0
device = "default"
[defaults.session]
cooldown_ms = 0
max_recording_secs = 60
max_total_secs = 60
[defaults.continuation]
gap = "drop"
silence_ms = 0
max_segments = 1
"#,
    )]) {
        Err(ConfigError::Invalid { issues }) => issues,
        other => panic!("expected rejection, got {other:?}"),
    };
    assert_reports(&issues, "profiles", "no profiles are defined");
}

#[test]
fn every_problem_is_reported_in_one_pass() {
    let issues = errors(
        r#"
[audio]
sample_rate = 999
[levels]
silence_dbfs = 5.0
[profiles.p]
transcriber = "missing"
sinks = ["also-missing"]
"#,
    );
    assert!(issues.len() >= 4, "expected all four problems at once, got: {issues:#?}");
}

// ── things that are legal but probably unintended ───────────────────────────

#[test]
fn pre_roll_in_on_demand_mode_warns_that_it_does_nothing() {
    let issues = warnings("[defaults.capture]\nmode = \"on_demand\"\npre_roll_ms = 500\n");
    assert_reports(&issues, "profiles.default.capture.pre_roll_ms", "no effect");
}

#[test]
fn keeping_gap_audio_in_on_demand_mode_warns_about_the_fallback() {
    let issues = warnings(
        "[defaults.capture]\nmode = \"on_demand\"\npre_roll_ms = 0\nidle_release_secs = 0\n",
    );
    assert_reports(&issues, "profiles.default.continuation.gap", "behave as");
}

#[test]
fn a_text_only_sink_on_a_profile_without_a_transcriber_warns() {
    let issues = warnings(
        r#"
[sinks.clip]
type = "clipboard"
[profiles.p]
transcriber = false
sinks = ["clip"]
"#,
    );
    assert_reports(&issues, "profiles.p.sinks", "will always be skipped");
}

#[test]
fn a_sink_listed_twice_warns_that_it_runs_twice() {
    let issues = warnings(
        r#"
[sinks.s]
type = "command"
cmd = ["true"]
[profiles.p]
sinks = ["s", "s"]
"#,
    );
    assert_reports(&issues, "profiles.p.sinks", "listed twice");
}

#[test]
fn a_defined_but_unreferenced_sink_warns() {
    let issues = warnings(
        r#"
[sinks.orphan]
type = "command"
cmd = ["true"]
[profiles.p]
"#,
    );
    assert_reports(&issues, "sinks.orphan", "no profile uses it");
}

#[test]
fn feedback_with_no_presenters_warns_that_nothing_is_shown() {
    let issues = warnings("[feedback]\npresenters = []\n");
    assert_reports(&issues, "feedback.presenters", "nothing will be shown");
}

#[test]
fn warnings_do_not_prevent_loading() {
    let loaded =
        try_load("[defaults.capture]\nmode = \"on_demand\"\n").expect("a warning is not a failure");
    assert!(!loaded.warnings.is_empty());
}

// ── malformed input ─────────────────────────────────────────────────────────

#[test]
fn a_syntax_error_names_the_file_it_came_from() {
    let error = from_layers(&[
        layer("<embedded>", EMBEDDED_DEFAULT),
        layer("conf.d/20-broken.toml", "[profiles.p\n"),
    ])
    .expect_err("unbalanced bracket should not parse");

    let rendered = error.to_text();
    assert!(
        rendered.contains("conf.d/20-broken.toml"),
        "the user needs to know which file: {rendered}"
    );
}

#[test]
fn transcriber_true_is_rejected_with_an_explanation() {
    let error = try_load("[profiles.p]\ntranscriber = true\n").expect_err("should be rejected");
    let rendered = error.to_text();
    assert!(
        rendered.contains("transcriber name"),
        "should explain what was expected: {rendered}"
    );
}

#[test]
fn an_unreadable_file_is_named_with_the_reason() {
    let error =
        ConfigError::Io { path: "/etc/x.toml".to_owned(), source: "permission denied".to_owned() };
    assert_eq!(error.to_text(), "reading /etc/x.toml: permission denied");
}

// ── documents ───────────────────────────────────────────────────────────────

fn document(text: &str) -> Table {
    parse_document(text).expect("valid toml")
}

fn at<'a>(table: &'a Table, path: &[&str]) -> &'a Item {
    let (first, rest) = path.split_first().expect("a path");
    let item = table.get(first).expect("the key should be there");
    if rest.is_empty() {
        item
    } else {
        at(item.as_table().expect("a table"), rest)
    }
}

#[test]
fn merging_recurses_into_nested_tables() {
    let mut base = document("[a.b]\nx = 1\ny = 2\n");
    merge_into(&mut base, document("[a.b]\ny = 3\nz = 4\n"));

    assert_eq!(at(&base, &["a", "b", "x"]).as_integer(), Some(1));
    assert_eq!(at(&base, &["a", "b", "y"]).as_integer(), Some(3));
    assert_eq!(at(&base, &["a", "b", "z"]).as_integer(), Some(4));
}

#[test]
fn a_scalar_overwrites_a_table_of_the_same_name() {
    let mut base = document("[a]\nx = 1\n");
    merge_into(&mut base, document("a = 5\n"));
    assert_eq!(at(&base, &["a"]).as_integer(), Some(5));
}

#[test]
fn arrays_are_replaced_wholesale() {
    let mut base = document("xs = [1, 2, 3]\n");
    merge_into(&mut base, document("xs = [9]\n"));
    assert_eq!(at(&base, &["xs"]).as_array().map(Vec::len), Some(1));
}

#[test]
fn every_kind_of_value_survives_parsing() {
    let parsed = document("t = \"x\"\ni = -3\nf = 0.5\nb = true\nd = 2026-09-11\na = [1, \"y\"]\n");
    assert_eq!(at(&parsed, &["t"]), &Item::Text("x".to_owned()));
    assert_eq!(at(&parsed, &["i"]), &Item::Integer(-3));
    assert_eq!(at(&parsed, &["f"]), &Item::Float(0.5f64.to_bits()));
    assert_eq!(at(&parsed, &["b"]), &Item::Boolean(true));
    assert_eq!(at(&parsed, &["d"]), &Item::Datetime("2026-09-11".to_owned()));
    assert_eq!(
        at(&parsed, &["a"]),
        &Item::Array(vec![Item::Integer(1), Item::Text("y".to_owned())])
    );
}

#[test]
fn merging_the_same_layer_twice_changes_nothing() {
    let overlay = "xs = [9]\n[a.b]\ny = 3\nz = 4\n";
    let mut once = document("k = 1\nxs = [1, 2]\n[a]\nq = 1\n[a.b]\ny = 1\n");
    merge_into(&mut once, document(overlay));
    let mut twice = document("k = 1\nxs = [1, 2]\n[a]\nq = 1\n[a.b]\ny = 1\n");
    merge_into(&mut twice, document(overlay));
    merge_into(&mut twice, document(overlay));
    assert_eq!(once, twice);
}

#[test]
fn unknown_keys_finds_only_what_was_dropped() {
    let written = document("[a]\nkept = 1\ndropped = 2\n");
    let round_tripped = document("[a]\nkept = 1\nadded_by_default = 3\n");

    let unknown = unknown_keys(&written, &round_tripped, &vec![]);
    assert_eq!(unknown, vec!["a.dropped".to_owned()]);
}

#[test]
fn an_empty_table_is_not_reported_when_the_schema_fills_it_in() {
    let written = document("[profiles.p]\n");
    let round_tripped = document("[profiles.p.capture]\nmode = \"warm\"\n");
    assert!(unknown_keys(&written, &round_tripped, &vec![]).is_empty());
}

#[test]
fn an_empty_table_with_no_counterpart_is_reported() {
    let written = document("[profiles.p.captur]\n");
    let round_tripped = document("[profiles.p.capture]\nmode = \"warm\"\n");
    assert_eq!(
        unknown_keys(&written, &round_tripped, &vec![]),
        vec!["profiles.p.captur".to_owned()]
    );
}

#[test]
fn free_form_prefixes_are_exempt_but_their_siblings_are_not() {
    let written = document("[s.headers]\nX-Anything = \"1\"\n[s]\ntimeout_msec = 5\n");
    let round_tripped = document("[s]\ntimeout_ms = 5\n[s.headers]\n");

    assert_eq!(
        unknown_keys(&written, &round_tripped, &vec!["s.headers.".to_owned()]),
        vec!["s.timeout_msec".to_owned()]
    );
}

#[test]
fn suggestions_only_consider_keys_at_the_same_level() {
    let round_tripped = document("[a]\npre_roll_ms = 1\n[b]\npre_roll_ms = 1\n");
    assert_eq!(suggest("a.pre_roll_m", &round_tripped), Some("a.pre_roll_ms".to_owned()));
}

#[test]
fn a_wildly_different_name_gets_no_suggestion() {
    let round_tripped = document("[a]\npre_roll_ms = 1\n");
    assert_eq!(suggest("a.banana", &round_tripped), None);
}

#[test]
fn edit_distance_counts_single_edits() {
    assert_eq!(edit_distance("", ""), 0);
    assert_eq!(edit_distance("abc", "abc"), 0);
    assert_eq!(edit_distance("abc", "abd"), 1);
    assert_eq!(edit_distance("abc", "ab"), 1);
    assert_eq!(edit_distance("ab", "ba"), 2);
    assert_eq!(edit_distance("", "abc"), 3);
    let words = ["kitten", "sitting", "", "mitten", "it"];
    for a in words {
        for b in words {
            let direct = edit_distance(a, b);
            assert!(direct >= a.len().abs_diff(b.len()));
            for c in words {
                assert!(direct <= edit_distance(a, c) + edit_distance(c, b));
            }
        }
    }
    assert_eq!(edit_distance("kitten", "sitting"), 3);
}

// ── files ───────────────────────────────────────────────────────────────────

#[test]
fn drop_ins_apply_in_filename_order_and_nothing_else_does() {
    let names = ["20-b.toml", "README", "10-a.toml", "10-a.toml~", ".toml"];
    assert_eq!(
        select_drop_ins(names.iter().map(|name| (*name).to_owned()).collect()),
        vec!["10-a.toml".to_owned(), "20-b.toml".to_owned()]
    );
}

#[test]
fn the_baseline_comes_first_and_drop_ins_last() {
    let layers = stack(
        Some(layer("config.toml", "a = 1\n")),
        vec![layer("10.toml", "b = 2\n"), layer("20.toml", "c = 3\n")],
    );
    let sources: Vec<&str> = layers.iter().map(|layer| layer.source.as_str()).collect();
    assert_eq!(sources, vec!["<embedded default>", "config.toml", "10.toml", "20.toml"]);
    assert_eq!(layers[0].text, EMBEDDED_DEFAULT);
    assert_eq!(stack(None, vec![]).len(), 1);
}

#[test]
fn device_selectors_are_written_as_they_were_read() {
    assert_eq!(DeviceSelector::from_text("default".to_owned()), DeviceSelector::Default);
    let yeti = DeviceSelector::from_text("yEti".to_owned());
    assert_eq!(yeti.as_text(), "yEti");
    assert_eq!(DeviceSelector::Default.as_text(), "default");
    assert!(yeti.matches("Blue YETI Stereo"), "matching ignores case");
    assert!(!yeti.matches("Built-in"));
    assert!(!DeviceSelector::Default.matches("default"));
}

// ── the overlay ─────────────────────────────────────────────────────────────

#[test]
fn six_and_eight_digit_colours_both_parse() {
    assert_eq!(Hex::from("#58d7ff").parse(), Some((0x58, 0xd7, 0xff, 255)));
    assert_eq!(Hex::from("#05080cd2").parse(), Some((5, 8, 12, 0xd2)));
}

#[test]
fn a_malformed_colour_is_rejected_rather_than_guessed() {
    assert_eq!(Hex::from("58d7ff").parse(), None, "missing hash");
    assert_eq!(Hex::from("#58d7f").parse(), None, "wrong length");
    assert_eq!(Hex::from("#gggggg").parse(), None, "not hex");
    assert_eq!(Hex::from("").parse(), None);
}

#[test]
fn a_sign_is_not_a_hexadecimal_digit() {
    assert_eq!(Hex::from("#+f+f+f").parse(), None);
}

#[test]
fn the_defaults_are_all_valid_colours() {
    let colours = OverlayColours::default();
    for (name, hex) in [
        ("hud", &colours.hud),
        ("deep", &colours.deep),
        ("dim", &colours.dim),
        ("rule", &colours.rule),
        ("warn", &colours.warn),
        ("critical", &colours.critical),
        ("ok", &colours.ok),
        ("text", &colours.text),
        ("text_dim", &colours.text_dim),
        ("ground", &colours.ground),
        ("panel_ground", &colours.panel_ground),
    ] {
        assert!(hex.parse().is_some(), "{name} is not a valid colour: {}", hex.0);
    }
}

#[test]
fn the_wave_speeds_up_rather_than_down_with_the_voice() {
    let motion = OverlayMotion::default();
    assert!(
        f32::from_bits(motion.wave_speed_voice.bits) > f32::from_bits(motion.wave_speed.bits),
        "speaking should make it move more, not less"
    );
}

#[test]
fn the_quiet_thresholds_leave_a_gap() {
    let motion = OverlayMotion::default();
    assert!(
        f32::from_bits(motion.quiet_leave_dbfs.bits) > f32::from_bits(motion.quiet_enter_dbfs.bits),
        "without a gap the colour oscillates at the boundary"
    );
}

#[test]
fn the_overlay_defaults_are_the_documented_numbers() {
    let overlay = OverlayConfig::default();
    assert_eq!(overlay.position, OverlayPosition::Bottom);
    assert_eq!((overlay.margin, overlay.size, overlay.fps), (72, 240, 60));
    assert_eq!(overlay.font, "Chakra Petch");
    assert_eq!(overlay.motion.wave_speed.bits, 0.55f32.to_bits());
    assert_eq!(overlay.motion.wave_speed_voice.bits, 3.4f32.to_bits());
    assert_eq!(overlay.motion.attack.bits, 0.28f32.to_bits());
    assert_eq!(overlay.motion.release.bits, 0.04f32.to_bits());
    assert_eq!(overlay.motion.arc_speed.bits, 1.0f32.to_bits());
    assert_eq!(overlay.motion.quiet_enter_dbfs.bits, (-48.0f32).to_bits());
    assert_eq!(overlay.motion.quiet_leave_dbfs.bits, (-42.0f32).to_bits());
    assert_eq!(overlay.geometry.wave_base.bits, 68.0f32.to_bits());
    assert_eq!(overlay.geometry.wave_height.bits, 16.0f32.to_bits());
    assert_eq!(overlay.geometry.panel_width, 300);
}
