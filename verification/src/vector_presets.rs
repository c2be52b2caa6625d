//! Ready-to-paste Vector agent configurations for common platforms.
use crate::text::{
    ascii_lower_spec, concat, str_eq, to_ascii_lowercase, trim, trim_end_char,
    trim_end_char_spec, trim_spec,
};
use vstd::prelude::*;
use vstd::string::StringExecFns;

verus! {

/// A platform for which a Vector configuration is offered.
#[derive(Debug, Clone, Copy, PartialEq, Eq)]
pub struct PlatformPreset {
    pub id: &'static str,
    pub label: &'static str,
    pub description: &'static str,
}

/// The ids of the presets, in the order they are offered.
pub open spec fn preset_ids() -> Seq<Seq<char>> {
    seq!["docker"@, "linux"@, "windows"@, "macos"@, "files"@]
}

/// The display names of the presets, in order.
pub open spec fn preset_labels() -> Seq<Seq<char>> {
    seq!["Docker"@, "Linux"@, "Windows"@, "macOS"@, "Files"@]
}

/// What each preset collects, in order.
pub open spec fn preset_descriptions() -> Seq<Seq<char>> {
    seq![
        "Container logs via docker_logs (Linux/macOS Docker Engine or Desktop)"@,
        "systemd journal (journald) with message remap"@,
        "Windows Event Log (Application, System, Security)"@,
        "Common system/app log files under /var/log and /Library/Logs"@,
        "Tail arbitrary log files \u{2014} edit the include paths"@,
    ]
}

/// The offered presets, in order.
pub fn presets() -> (r: Vec<PlatformPreset>)
    ensures
        r@.len() == 5,
        forall|i: int|
            0 <= i < 5 ==> (#[trigger] r@[i]).id@ == preset_ids()[i] && r@[i].label@
                == preset_labels()[i] && r@[i].description@ == preset_descriptions()[i],
{
    let mut v: Vec<PlatformPreset> = Vec::new();
    v.push(
        PlatformPreset {
            id: "docker",
            label: "Docker",
            description: "Container logs via docker_logs (Linux/macOS Docker Engine or Desktop)",
        },
    );
    v.push(
        PlatformPreset {
            id: "linux",
            label: "Linux",
            description: "systemd journal (journald) with message remap",
        },
    );
    v.push(
        PlatformPreset {
            id: "windows",
            label: "Windows",
            description: "Windows Event Log (Application, System, Security)",
        },
    );
    v.push(
        PlatformPreset {
            id: "macos",
            label: "macOS",
            description: "Common system/app log files under /var/log and /Library/Logs",
        },
    );
    v.push(
        PlatformPreset {
            id: "files",
            label: "Files",
            description: "Tail arbitrary log files \u{2014} edit the include paths",
        },
    );
    assert(v@.len() == 5);
    v
}

/// The platform id a request selects: the given text (else `docker`), trimmed
/// and lower-cased, when it names a preset; otherwise `docker`.
pub open spec fn normalize_platform_spec(raw: Option<Seq<char>>) -> Seq<char> {
    let id = ascii_lower_spec(
        trim_spec(
            match raw {
                Some(r) => r,
                None => "docker"@,
            },
        ),
    );
    if preset_ids().contains(id) {
        id
    } else {
        "docker"@
    }
}

/// A text of lower-case ASCII letters is its own trimmed, lower-cased form.
proof fn lemma_plain_id(s: Seq<char>)
    requires
        s.len() > 0,
        forall|i: int| 0 <= i < s.len() ==> 97 <= #[trigger] s[i] as u32 <= 122,
    ensures
        ascii_lower_spec(trim_spec(s)) == s,
{
    assert(!crate::text::unicode_white_space(s[0]));
    assert(crate::text::trim_start_spec(s) == s);
    assert(!crate::text::unicode_white_space(s.last()));
    assert(crate::text::trim_end_spec(s) == s);
    assert(ascii_lower_spec(s) =~= s);
}

/// Each offered preset is selected by its own id, and a request that names
/// no platform selects `docker`.
pub proof fn lemma_preset_ids_select_themselves(i: int)
    requires
        0 <= i < 5,
    ensures
        normalize_platform_spec(Some(preset_ids()[i])) == preset_ids()[i],
        normalize_platform_spec(None) == "docker"@,
{
    reveal_strlit("docker");
    reveal_strlit("linux");
    reveal_strlit("windows");
    reveal_strlit("macos");
    reveal_strlit("files");
    let ids = preset_ids();
    assert forall|k: int| 0 <= k < 5 implies ascii_lower_spec(trim_spec(#[trigger] ids[k])) == ids[k] by {
        lemma_plain_id(ids[k]);
    }
    assert(ids.contains(ids[i]));
    assert(ids.contains(ids[0]));
}

/// Resolves the platform a request names to a preset id, falling back to `docker`.
pub fn normalize_platform(raw: Option<&str>) -> (r: &'static str)
    ensures
        r@ == normalize_platform_spec(
            match raw {
                Some(s) => Some(s@),
                None => None,
            },
        ),
        preset_ids().contains(r@),
{
    let given = match raw {
        Some(s) => s,
        None => "docker",
    };
    let t = trim(given);
    let id = to_ascii_lowercase(t.as_str());
    let ghost ids = preset_ids();
    assert(ids[0] == "docker"@ && ids[1] == "linux"@ && ids[2] == "windows"@ && ids[3] == "macos"@
        && ids[4] == "files"@);
    let r = if str_eq(id.as_str(), "docker") {
        "docker"
    } else if str_eq(id.as_str(), "linux") {
        "linux"
    } else if str_eq(id.as_str(), "windows") {
        "windows"
    } else if str_eq(id.as_str(), "macos") {
        "macos"
    } else if str_eq(id.as_str(), "files") {
        "files"
    } else {
        proof {
            if ids.contains(id@) {
                let k = choose|k: int| 0 <= k < ids.len() && ids[k] == id@;
                assert(k == 0 || k == 1 || k == 2 || k == 3 || k == 4);
            }
        }
        "docker"
    };
    assert(ids.contains(r@)) by {
        if r@ == "docker"@ { assert(ids[0] == r@); }
        else if r@ == "linux"@ { assert(ids[1] == r@); }
        else if r@ == "windows"@ { assert(ids[2] == r@); }
        else if r@ == "macos"@ { assert(ids[3] == r@); }
        else { assert(ids[4] == r@); }
    }
    r
}


// ------------------------------------------------------------ yaml templates

/// The token text of the presets that read the token from the environment.
pub const ENV_TOKEN: &'static str = "${INGEST_TOKEN}";

/// The sink section before the inputs.
pub const SINK_HEAD: &'static str = "sinks:\n  vector_collector:\n    type: http\n    inputs: [";

/// Between the inputs and the ingest URI.
pub const SINK_URI: &'static str = "]\n    uri: ";

/// Between the ingest URI and the bearer token.
pub const SINK_AUTH: &'static str = "\n    method: post\n    encoding:\n      codec: json\n    compression: gzip\n    auth:\n      strategy: bearer\n      token: \"";

/// Between the bearer token and the health URI.
pub const SINK_HEALTH: &'static str = "\"\n    healthcheck:\n      enabled: true\n      uri: ";

/// After the health URI.
pub const SINK_TAIL: &'static str = "\n    batch:\n      max_bytes: 1048576\n      max_events: 500\n      timeout_secs: 5\n    buffer:\n      type: disk\n      max_size: 268435488\n";

/// The heartbeat source before its endpoint.
pub const HEARTBEAT_HEAD: &'static str = "  heartbeat:\n    type: http_client\n    endpoint: ";

/// Between the heartbeat endpoint and its bearer token.
pub const HEARTBEAT_AUTH: &'static str = "\n    scrape_interval_secs: 30\n    auth:\n      strategy: bearer\n      token: \"";

/// After the heartbeat token.
pub const HEARTBEAT_TAIL: &'static str = "\"\n";

/// The head of every transforms section.
pub const TRANSFORMS_HEAD: &'static str = "\ntransforms:\n  normalize:\n    type: remap\n";

/// The head of every remap program.
pub const REMAP_HEAD: &'static str = "    source: |\n";

/// The Docker configuration up to its sources.
pub const DOCKER_PREAMBLE: &'static str = "# Vector Collector \u{2014} Docker\n# Requires access to the Docker socket (typically /var/run/docker.sock).\ndata_dir: /var/lib/vector\n\nsources:\n";

/// The Docker source: its name and type.
pub const DOCKER_SOURCE: &'static str = "  docker:\n    type: docker_logs\n";

/// The rest of the Docker source.
pub const DOCKER_SOURCE_REST: &'static str = "";

/// The input of the Docker transform: its source.
pub const DOCKER_INPUTS: &'static str = "    inputs: [docker]\n";

/// How the Docker transform sets the message.
pub const DOCKER_MESSAGE: &'static str = "      .message = string!(.message)\n";

/// The rest of the Docker remap program.
pub const DOCKER_REMAP_REST: &'static str = "      if !exists(.source_type) {\n        .source_type = \"docker_logs\"\n      }\n\n";

/// The journald configuration up to its sources.
pub const LINUX_PREAMBLE: &'static str = "# Vector Collector \u{2014} Linux (journald)\n# Run Vector as a user in the systemd-journal group (or root).\ndata_dir: /var/lib/vector\n\nsources:\n";

/// The journald source: its name and type.
pub const LINUX_SOURCE: &'static str = "  journal:\n    type: journald\n";

/// The rest of the journald source.
pub const LINUX_SOURCE_REST: &'static str = "    current_boot_only: false\n";

/// The input of the journald transform: its source.
pub const LINUX_INPUTS: &'static str = "    inputs: [journal]\n";

/// How the journald transform sets the message.
pub const LINUX_MESSAGE: &'static str = "      .message = string(.message) ?? string(.MESSAGE) ?? \"\"\n";

/// The rest of the journald remap program.
pub const LINUX_REMAP_REST: &'static str = "      .container_name = string(.SYSLOG_IDENTIFIER) ?? string(._SYSTEMD_UNIT) ?? string(.CONTAINER_NAME) ?? \"journal\"\n      if exists(.PRIORITY) {\n        .stream = string!(.PRIORITY)\n      }\n      .source_type = \"journald\"\n\n";

/// The Windows Event Log configuration up to its sources.
pub const WINDOWS_PREAMBLE: &'static str = "# Vector Collector \u{2014} Windows Event Log\n# Install the Windows build of Vector. Run as a user that can read these channels.\n# The ingest token is written into this file; no environment file is needed.\ndata_dir: \"C:/ProgramData/vector\"\n\nsources:\n";

/// The Windows Event Log source: its name and type.
pub const WINDOWS_SOURCE: &'static str = "  winevent:\n    type: windows_event_log\n";

/// The rest of the Windows Event Log source.
pub const WINDOWS_SOURCE_REST: &'static str = "    channels:\n      - Application\n      - System\n      - Security\n    render_message: true\n";

/// The input of the Windows Event Log transform: its source.
pub const WINDOWS_INPUTS: &'static str = "    inputs: [winevent]\n";

/// How the Windows Event Log transform sets the message.
pub const WINDOWS_MESSAGE: &'static str = "      .message = string(.message) ?? string(.Message) ?? \"\"\n";

/// The rest of the Windows Event Log remap program.
pub const WINDOWS_REMAP_REST: &'static str = "      .container_name = string(.Channel) ?? string(.channel) ?? \"windows\"\n      if exists(.Provider) && is_object(.Provider) && exists(.Provider.Name) {\n        .image = string!(.Provider.Name)\n      } else if exists(.provider_name) {\n        .image = string!(.provider_name)\n      }\n      .source_type = \"windows_event_log\"\n\n";

/// The macOS file configuration up to its sources.
pub const MACOS_PREAMBLE: &'static str = "# Vector Collector \u{2014} macOS (file tails)\n# Unified logging (log stream) is not used here; edit include paths as needed.\n# May require Full Disk Access for the Vector process.\ndata_dir: /usr/local/var/lib/vector\n\nsources:\n";

/// The macOS file source: its name and type.
pub const MACOS_SOURCE: &'static str = "  files:\n    type: file\n";

/// The rest of the macOS file source.
pub const MACOS_SOURCE_REST: &'static str = "    include:\n      - /var/log/system.log\n      - /var/log/*.log\n      - /Library/Logs/**/*.log\n    read_from: end\n    ignore_not_found: true\n";

/// The input of the macOS file transform: its source.
pub const MACOS_INPUTS: &'static str = "    inputs: [files]\n";

/// How the macOS file transform sets the message.
pub const MACOS_MESSAGE: &'static str = "      .message = string!(.message)\n";

/// The rest of the macOS file remap program.
pub const MACOS_REMAP_REST: &'static str = "      .container_name = string(.file) ?? \"macos\"\n      .source_type = \"file\"\n\n";

/// The generic file configuration up to its sources.
pub const FILES_PREAMBLE: &'static str = "# Vector Collector \u{2014} generic file tails\n# Edit include globs for your app logs. data_dir must be writable.\ndata_dir: /var/lib/vector\n\nsources:\n";

/// The generic file source: its name and type.
pub const FILES_SOURCE: &'static str = "  files:\n    type: file\n";

/// The rest of the generic file source.
pub const FILES_SOURCE_REST: &'static str = "    include:\n      - /var/log/**/*.log\n      # - /path/to/your/app/*.log\n    read_from: end\n    ignore_not_found: true\n";

/// The input of the generic file transform: its source.
pub const FILES_INPUTS: &'static str = "    inputs: [files]\n";

/// How the generic file transform sets the message.
pub const FILES_MESSAGE: &'static str = "      .message = string!(.message)\n";

/// The rest of the generic file remap program.
pub const FILES_REMAP_REST: &'static str = "      .container_name = string(.file) ?? \"file\"\n      .source_type = \"file\"\n\n";

/// The HTTP sink that ships the given inputs to `uri` with the bearer token
/// text `token`, with `health` as its health check.
pub open spec fn http_sink_spec(inputs: Seq<char>, uri: Seq<char>, health: Seq<char>, token: Seq<char>) -> Seq<char> {
    SINK_HEAD@ + inputs + SINK_URI@ + uri + SINK_AUTH@ + token + SINK_HEALTH@ + health + SINK_TAIL@
}

/// The HTTP sink section of every preset.
pub fn http_sink(inputs: &str, uri: &str, health: &str, token: &str) -> (r: String)
    ensures
        r@ == http_sink_spec(inputs@, uri@, health@, token@),
{
    let mut s = String::from_str(SINK_HEAD);
    s.append(inputs);
    s.append(SINK_URI);
    s.append(uri);
    s.append(SINK_AUTH);
    s.append(token);
    s.append(SINK_HEALTH);
    s.append(health);
    s.append(SINK_TAIL);
    s
}

/// A source that calls `health` every 30 seconds with the bearer token text
/// `token`, so that the collector sees the agent while it has no logs to send.
pub open spec fn heartbeat_spec(health: Seq<char>, token: Seq<char>) -> Seq<char> {
    HEARTBEAT_HEAD@ + health + HEARTBEAT_AUTH@ + token + HEARTBEAT_TAIL@
}

/// The heartbeat source of every preset.
pub fn heartbeat_source(health: &str, token: &str) -> (r: String)
    ensures
        r@ == heartbeat_spec(health@, token@),
{
    let mut s = String::from_str(HEARTBEAT_HEAD);
    s.append(health);
    s.append(HEARTBEAT_AUTH);
    s.append(token);
    s.append(HEARTBEAT_TAIL);
    s
}

/// The sources of a platform before the heartbeat (Docker for unknown ids).
pub open spec fn preset_sources(platform: Seq<char>) -> Seq<char> {
    if platform == "linux"@ {
        LINUX_PREAMBLE@ + LINUX_SOURCE@ + LINUX_SOURCE_REST@
    } else if platform == "windows"@ {
        WINDOWS_PREAMBLE@ + WINDOWS_SOURCE@ + WINDOWS_SOURCE_REST@
    } else if platform == "macos"@ {
        MACOS_PREAMBLE@ + MACOS_SOURCE@ + MACOS_SOURCE_REST@
    } else if platform == "files"@ {
        FILES_PREAMBLE@ + FILES_SOURCE@ + FILES_SOURCE_REST@
    } else {
        DOCKER_PREAMBLE@ + DOCKER_SOURCE@ + DOCKER_SOURCE_REST@
    }
}

/// The transforms of a platform (Docker for unknown ids).
pub open spec fn preset_transforms(platform: Seq<char>) -> Seq<char> {
    if platform == "linux"@ {
        TRANSFORMS_HEAD@ + LINUX_INPUTS@ + REMAP_HEAD@ + LINUX_MESSAGE@ + LINUX_REMAP_REST@
    } else if platform == "windows"@ {
        TRANSFORMS_HEAD@ + WINDOWS_INPUTS@ + REMAP_HEAD@ + WINDOWS_MESSAGE@ + WINDOWS_REMAP_REST@
    } else if platform == "macos"@ {
        TRANSFORMS_HEAD@ + MACOS_INPUTS@ + REMAP_HEAD@ + MACOS_MESSAGE@ + MACOS_REMAP_REST@
    } else if platform == "files"@ {
        TRANSFORMS_HEAD@ + FILES_INPUTS@ + REMAP_HEAD@ + FILES_MESSAGE@ + FILES_REMAP_REST@
    } else {
        TRANSFORMS_HEAD@ + DOCKER_INPUTS@ + REMAP_HEAD@ + DOCKER_MESSAGE@ + DOCKER_REMAP_REST@
    }
}

/// The bearer token text a preset carries: the Windows preset holds the
/// token itself; the others read `${INGEST_TOKEN}` from the environment.
pub open spec fn token_text(platform: Seq<char>, token: Seq<char>) -> Seq<char> {
    if platform == "windows"@ {
        token
    } else {
        ENV_TOKEN@
    }
}

/// The whole Vector configuration of a platform for an agent with `token`:
/// its sources, the heartbeat, its transforms and the sink.
pub open spec fn preset_yaml_spec(platform: Seq<char>, uri: Seq<char>, health: Seq<char>, token: Seq<char>) -> Seq<char> {
    let t = token_text(platform, token);
    preset_sources(platform) + heartbeat_spec(health, t) + preset_transforms(platform) + http_sink_spec(
        "normalize"@,
        uri,
        health,
        t,
    )
}

/// The five preset ids are different texts.
pub proof fn lemma_preset_ids_distinct()
    ensures
        "docker"@ != "linux"@,
        "docker"@ != "windows"@,
        "docker"@ != "macos"@,
        "docker"@ != "files"@,
        "linux"@ != "windows"@,
        "linux"@ != "macos"@,
        "linux"@ != "files"@,
        "windows"@ != "macos"@,
        "windows"@ != "files"@,
        "macos"@ != "files"@,
{
    reveal_strlit("docker");
    reveal_strlit("linux");
    reveal_strlit("windows");
    reveal_strlit("macos");
    reveal_strlit("files");
    assert("docker"@[0] != "linux"@[0]);
    assert("docker"@[0] != "windows"@[0]);
    assert("docker"@[0] != "macos"@[0]);
    assert("docker"@[0] != "files"@[0]);
    assert("linux"@[0] != "windows"@[0]);
    assert("linux"@[0] != "macos"@[0]);
    assert("linux"@[0] != "files"@[0]);
    assert("windows"@[0] != "macos"@[0]);
    assert("windows"@[0] != "files"@[0]);
    assert("macos"@[0] != "files"@[0]);
}

#[verifier::spinoff_prover]
proof fn lemma_docker_reads_its_source(uri: Seq<char>, health: Seq<char>, token: Seq<char>)
    ensures
        exists|a: Seq<char>, b: Seq<char>, c: Seq<char>|
            preset_yaml_spec("docker"@, uri, health, token) == a + "  docker:\n    type: docker_logs\n"@ + b + "    inputs: [docker]\n"@ + c,
{
    lemma_preset_ids_distinct();
    let t = token_text("docker"@, token);
    let a = DOCKER_PREAMBLE@;
    let b = DOCKER_SOURCE_REST@ + heartbeat_spec(health, t) + TRANSFORMS_HEAD@;
    let c = REMAP_HEAD@ + DOCKER_MESSAGE@ + DOCKER_REMAP_REST@ + http_sink_spec("normalize"@, uri, health, t);
    assert(DOCKER_SOURCE@ == "  docker:\n    type: docker_logs\n"@);
    assert(DOCKER_INPUTS@ == "    inputs: [docker]\n"@);
    assert(preset_yaml_spec("docker"@, uri, health, token) =~= a + DOCKER_SOURCE@ + b + DOCKER_INPUTS@ + c);
}

#[verifier::spinoff_prover]
proof fn lemma_linux_reads_its_source(uri: Seq<char>, health: Seq<char>, token: Seq<char>)
    ensures
        exists|a: Seq<char>, b: Seq<char>, c: Seq<char>|
            preset_yaml_spec("linux"@, uri, health, token) == a + "  journal:\n    type: journald\n"@ + b + "    inputs: [journal]\n"@ + c,
{
    lemma_preset_ids_distinct();
    let t = token_text("linux"@, token);
    let a = LINUX_PREAMBLE@;
    let b = LINUX_SOURCE_REST@ + heartbeat_spec(health, t) + TRANSFORMS_HEAD@;
    let c = REMAP_HEAD@ + LINUX_MESSAGE@ + LINUX_REMAP_REST@ + http_sink_spec("normalize"@, uri, health, t);
    assert(LINUX_SOURCE@ == "  journal:\n    type: journald\n"@);
    assert(LINUX_INPUTS@ == "    inputs: [journal]\n"@);
    assert(preset_yaml_spec("linux"@, uri, health, token) =~= a + LINUX_SOURCE@ + b + LINUX_INPUTS@ + c);
}

#[verifier::spinoff_prover]
proof fn lemma_windows_reads_its_source(uri: Seq<char>, health: Seq<char>, token: Seq<char>)
    ensures
        exists|a: Seq<char>, b: Seq<char>, c: Seq<char>|
            preset_yaml_spec("windows"@, uri, health, token) == a + "  winevent:\n    type: windows_event_log\n"@ + b + "    inputs: [winevent]\n"@ + c,
{
    lemma_preset_ids_distinct();
    let t = token_text("windows"@, token);
    let a = WINDOWS_PREAMBLE@;
    let b = WINDOWS_SOURCE_REST@ + heartbeat_spec(health, t) + TRANSFORMS_HEAD@;
    let c = REMAP_HEAD@ + WINDOWS_MESSAGE@ + WINDOWS_REMAP_REST@ + http_sink_spec("normalize"@, uri, health, t);
    assert(WINDOWS_SOURCE@ == "  winevent:\n    type: windows_event_log\n"@);
    assert(WINDOWS_INPUTS@ == "    inputs: [winevent]\n"@);
    assert(preset_yaml_spec("windows"@, uri, health, token) =~= a + WINDOWS_SOURCE@ + b + WINDOWS_INPUTS@ + c);
}

#[verifier::spinoff_prover]
proof fn lemma_macos_reads_its_source(uri: Seq<char>, health: Seq<char>, token: Seq<char>)
    ensures
        exists|a: Seq<char>, b: Seq<char>, c: Seq<char>|
            preset_yaml_spec("macos"@, uri, health, token) == a + "  files:\n    type: file\n"@ + b + "    inputs: [files]\n"@ + c,
{
    lemma_preset_ids_distinct();
    let t = token_text("macos"@, token);
    let a = MACOS_PREAMBLE@;
    let b = MACOS_SOURCE_REST@ + heartbeat_spec(health, t) + TRANSFORMS_HEAD@;
    let c = REMAP_HEAD@ + MACOS_MESSAGE@ + MACOS_REMAP_REST@ + http_sink_spec("normalize"@, uri, health, t);
    assert(MACOS_SOURCE@ == "  files:\n    type: file\n"@);
    assert(MACOS_INPUTS@ == "    inputs: [files]\n"@);
    assert(preset_yaml_spec("macos"@, uri, health, token) =~= a + MACOS_SOURCE@ + b + MACOS_INPUTS@ + c);
}

#[verifier::spinoff_prover]
proof fn lemma_files_reads_its_source(uri: Seq<char>, health: Seq<char>, token: Seq<char>)
    ensures
        exists|a: Seq<char>, b: Seq<char>, c: Seq<char>|
            preset_yaml_spec("files"@, uri, health, token) == a + "  files:\n    type: file\n"@ + b + "    inputs: [files]\n"@ + c,
{
    lemma_preset_ids_distinct();
    let t = token_text("files"@, token);
    let a = FILES_PREAMBLE@;
    let b = FILES_SOURCE_REST@ + heartbeat_spec(health, t) + TRANSFORMS_HEAD@;
    let c = REMAP_HEAD@ + FILES_MESSAGE@ + FILES_REMAP_REST@ + http_sink_spec("normalize"@, uri, health, t);
    assert(FILES_SOURCE@ == "  files:\n    type: file\n"@);
    assert(FILES_INPUTS@ == "    inputs: [files]\n"@);
    assert(preset_yaml_spec("files"@, uri, health, token) =~= a + FILES_SOURCE@ + b + FILES_INPUTS@ + c);
}

#[verifier::spinoff_prover]
proof fn lemma_linux_reads_message(uri: Seq<char>, health: Seq<char>, token: Seq<char>)
    ensures
        exists|a: Seq<char>, b: Seq<char>|
            preset_yaml_spec("linux"@, uri, health, token) == a
                + "      .message = string(.message) ?? string(.MESSAGE) ?? \"\"\n"@ + b,
{
    lemma_preset_ids_distinct();
    let t = token_text("linux"@, token);
    let pre = LINUX_PREAMBLE@ + LINUX_SOURCE@ + LINUX_SOURCE_REST@ + heartbeat_spec(health, t)
        + TRANSFORMS_HEAD@ + LINUX_INPUTS@ + REMAP_HEAD@;
    let post = LINUX_REMAP_REST@ + http_sink_spec("normalize"@, uri, health, t);
    assert(LINUX_MESSAGE@ == "      .message = string(.message) ?? string(.MESSAGE) ?? \"\"\n"@);
    assert(preset_yaml_spec("linux"@, uri, health, token) =~= pre + LINUX_MESSAGE@ + post);
}

/// Every preset's transform reads the source that the preset defines:
/// Docker `docker` (docker_logs), Linux `journal` (journald), Windows
/// `winevent` (windows_event_log), macOS and Files `files` (file), each
/// declared before the transform that names it; and the Linux transform takes
/// the message from journald's `MESSAGE`.
pub proof fn lemma_presets_read_their_source(uri: Seq<char>, health: Seq<char>, token: Seq<char>)
    ensures
        exists|a: Seq<char>, b: Seq<char>, c: Seq<char>|
            preset_yaml_spec("docker"@, uri, health, token) == a + "  docker:\n    type: docker_logs\n"@ + b + "    inputs: [docker]\n"@ + c,
        exists|a: Seq<char>, b: Seq<char>, c: Seq<char>|
            preset_yaml_spec("linux"@, uri, health, token) == a + "  journal:\n    type: journald\n"@ + b + "    inputs: [journal]\n"@ + c,
        exists|a: Seq<char>, b: Seq<char>, c: Seq<char>|
            preset_yaml_spec("windows"@, uri, health, token) == a + "  winevent:\n    type: windows_event_log\n"@ + b + "    inputs: [winevent]\n"@ + c,
        exists|a: Seq<char>, b: Seq<char>, c: Seq<char>|
            preset_yaml_spec("macos"@, uri, health, token) == a + "  files:\n    type: file\n"@ + b + "    inputs: [files]\n"@ + c,
        exists|a: Seq<char>, b: Seq<char>, c: Seq<char>|
            preset_yaml_spec("files"@, uri, health, token) == a + "  files:\n    type: file\n"@ + b + "    inputs: [files]\n"@ + c,
        exists|a: Seq<char>, b: Seq<char>|
            preset_yaml_spec("linux"@, uri, health, token) == a
                + "      .message = string(.message) ?? string(.MESSAGE) ?? \"\"\n"@ + b,
{
    lemma_docker_reads_its_source(uri, health, token);
    lemma_linux_reads_its_source(uri, health, token);
    lemma_windows_reads_its_source(uri, health, token);
    lemma_macos_reads_its_source(uri, health, token);
    lemma_files_reads_its_source(uri, health, token);
    lemma_linux_reads_message(uri, health, token);
}

fn assemble(sources: &str, transforms: &str, uri: &str, health: &str, token: &str) -> (r: String)
    ensures
        r@ == sources@ + heartbeat_spec(health@, token@) + transforms@ + http_sink_spec(
            "normalize"@,
            uri@,
            health@,
            token@,
        ),
{
    let hb = heartbeat_source(health, token);
    let sink = http_sink("normalize", uri, health, token);
    let mut s = String::from_str(sources);
    s.append(hb.as_str());
    s.append(transforms);
    s.append(sink.as_str());
    s
}

/// The Docker configuration.
pub fn docker_yaml(uri: &str, health: &str, token: &str) -> (r: String)
    ensures
        r@ == preset_yaml_spec("docker"@, uri@, health@, token@),
{
    proof {
        lemma_preset_ids_distinct();
    }
    let mut sources = String::from_str(DOCKER_PREAMBLE);
    sources.append(DOCKER_SOURCE);
    sources.append(DOCKER_SOURCE_REST);
    let mut transforms = String::from_str(TRANSFORMS_HEAD);
    transforms.append(DOCKER_INPUTS);
    transforms.append(REMAP_HEAD);
    transforms.append(DOCKER_MESSAGE);
    transforms.append(DOCKER_REMAP_REST);
    assemble(sources.as_str(), transforms.as_str(), uri, health, ENV_TOKEN)
}

/// The journald configuration.
pub fn linux_yaml(uri: &str, health: &str, token: &str) -> (r: String)
    ensures
        r@ == preset_yaml_spec("linux"@, uri@, health@, token@),
{
    proof {
        lemma_preset_ids_distinct();
    }
    let mut sources = String::from_str(LINUX_PREAMBLE);
    sources.append(LINUX_SOURCE);
    sources.append(LINUX_SOURCE_REST);
    let mut transforms = String::from_str(TRANSFORMS_HEAD);
    transforms.append(LINUX_INPUTS);
    transforms.append(REMAP_HEAD);
    transforms.append(LINUX_MESSAGE);
    transforms.append(LINUX_REMAP_REST);
    assemble(sources.as_str(), transforms.as_str(), uri, health, ENV_TOKEN)
}

/// The Windows Event Log configuration; the token is written into it.
pub fn windows_yaml(uri: &str, health: &str, token: &str) -> (r: String)
    ensures
        r@ == preset_yaml_spec("windows"@, uri@, health@, token@),
{
    proof {
        lemma_preset_ids_distinct();
    }
    let mut sources = String::from_str(WINDOWS_PREAMBLE);
    sources.append(WINDOWS_SOURCE);
    sources.append(WINDOWS_SOURCE_REST);
    let mut transforms = String::from_str(TRANSFORMS_HEAD);
    transforms.append(WINDOWS_INPUTS);
    transforms.append(REMAP_HEAD);
    transforms.append(WINDOWS_MESSAGE);
    transforms.append(WINDOWS_REMAP_REST);
    assemble(sources.as_str(), transforms.as_str(), uri, health, token)
}

/// The macOS file-tail configuration.
pub fn macos_yaml(uri: &str, health: &str, token: &str) -> (r: String)
    ensures
        r@ == preset_yaml_spec("macos"@, uri@, health@, token@),
{
    proof {
        lemma_preset_ids_distinct();
    }
    let mut sources = String::from_str(MACOS_PREAMBLE);
    sources.append(MACOS_SOURCE);
    sources.append(MACOS_SOURCE_REST);
    let mut transforms = String::from_str(TRANSFORMS_HEAD);
    transforms.append(MACOS_INPUTS);
    transforms.append(REMAP_HEAD);
    transforms.append(MACOS_MESSAGE);
    transforms.append(MACOS_REMAP_REST);
    assemble(sources.as_str(), transforms.as_str(), uri, health, ENV_TOKEN)
}

/// The generic file-tail configuration.
pub fn files_yaml(uri: &str, health: &str, token: &str) -> (r: String)
    ensures
        r@ == preset_yaml_spec("files"@, uri@, health@, token@),
{
    proof {
        lemma_preset_ids_distinct();
    }
    let mut sources = String::from_str(FILES_PREAMBLE);
    sources.append(FILES_SOURCE);
    sources.append(FILES_SOURCE_REST);
    let mut transforms = String::from_str(TRANSFORMS_HEAD);
    transforms.append(FILES_INPUTS);
    transforms.append(REMAP_HEAD);
    transforms.append(FILES_MESSAGE);
    transforms.append(FILES_REMAP_REST);
    assemble(sources.as_str(), transforms.as_str(), uri, health, ENV_TOKEN)
}

/// The configuration of a platform (Docker for unknown ids).
pub fn preset_yaml(platform: &str, uri: &str, health: &str, token: &str) -> (r: String)
    ensures
        r@ == preset_yaml_spec(platform@, uri@, health@, token@),
{
    proof {
        lemma_preset_ids_distinct();
    }
    if str_eq(platform, "linux") {
        linux_yaml(uri, health, token)
    } else if str_eq(platform, "windows") {
        windows_yaml(uri, health, token)
    } else if str_eq(platform, "macos") {
        macos_yaml(uri, health, token)
    } else if str_eq(platform, "files") {
        files_yaml(uri, health, token)
    } else {
        docker_yaml(uri, health, token)
    }
}


// ------------------------------------------------------------------ bundle

/// A preset together with its configuration for one collector.
#[derive(Debug, Clone)]
pub struct PresetConfig {
    pub id: &'static str,
    pub label: &'static str,
    pub description: &'static str,
    pub yaml: String,
}

/// What an agent needs to connect: its token, the ingest URI, the environment
/// block, the selected platform and its configuration, and every preset's
/// configuration.
#[derive(Debug, Clone)]
pub struct AgentBundle {
    pub token: String,
    pub uri: String,
    pub env: String,
    pub platform: &'static str,
    pub yaml: String,
    pub presets: Vec<PresetConfig>,
}

/// The environment block given to a Vector agent.
pub const ENV_TAIL: &'static str = "\nVECTOR_DANGEROUSLY_ALLOW_ENV_VAR_INTERPOLATION=true";

/// The collector's base URL without trailing slashes.
pub open spec fn base_url_spec(public_base_url: Seq<char>) -> Seq<char> {
    trim_end_char_spec(public_base_url, '/')
}

/// The ingest URI.
pub open spec fn ingest_uri_spec(public_base_url: Seq<char>) -> Seq<char> {
    base_url_spec(public_base_url) + "/v1/logs"@
}

/// The ingest health-check URI.
pub open spec fn health_uri_spec(public_base_url: Seq<char>) -> Seq<char> {
    base_url_spec(public_base_url) + "/v1/ingest/health"@
}

/// The view of an optional text.
pub open spec fn opt_view(o: Option<&str>) -> Option<Seq<char>> {
    match o {
        Some(s) => Some(s@),
        None => None,
    }
}

/// The connection bundle for an agent with the given token.
pub fn vector_agent_bundle(public_base_url: &str, token: &str, platform: Option<&str>) -> (r:
    AgentBundle)
    ensures
        r.token@ == token@,
        r.uri@ == ingest_uri_spec(public_base_url@),
        r.env@ == "INGEST_TOKEN="@ + token@ + ENV_TAIL@,
        r.platform@ == normalize_platform_spec(opt_view(platform)),
        r.yaml@ == preset_yaml_spec(
            r.platform@,
            ingest_uri_spec(public_base_url@),
            health_uri_spec(public_base_url@),
            token@,
        ),
        r.presets@.len() == 5,
        forall|i: int|
            0 <= i < 5 ==> (#[trigger] r.presets@[i]).id@ == preset_ids()[i] && r.presets@[i].label@
                == preset_labels()[i] && r.presets@[i].description@ == preset_descriptions()[i]
                && r.presets@[i].yaml@ == preset_yaml_spec(
                preset_ids()[i],
                ingest_uri_spec(public_base_url@),
                health_uri_spec(public_base_url@),
                token@,
            ),
        exists|i: int|
            0 <= i < 5 && (#[trigger] r.presets@[i]).id@ == r.platform@ && r.presets@[i].yaml@
                == r.yaml@,
{
    let selected = normalize_platform(platform);
    let base = trim_end_char(public_base_url, '/');
    let uri = concat(base.as_str(), "/v1/logs");
    let health = concat(base.as_str(), "/v1/ingest/health");
    let mut env = concat("INGEST_TOKEN=", token);
    env.append(ENV_TAIL);
    let all = presets();
    let mut out: Vec<PresetConfig> = Vec::new();
    let mut i: usize = 0;
    while i < all.len()
        invariant
            i <= all@.len() == 5,
            forall|k: int|
                0 <= k < 5 ==> (#[trigger] all@[k]).id@ == preset_ids()[k] && all@[k].label@
                    == preset_labels()[k] && all@[k].description@ == preset_descriptions()[k],
            out@.len() == i,
            forall|k: int|
                0 <= k < i ==> (#[trigger] out@[k]).id@ == preset_ids()[k] && out@[k].label@
                    == preset_labels()[k] && out@[k].description@ == preset_descriptions()[k]
                    && out@[k].yaml@ == preset_yaml_spec(preset_ids()[k], uri@, health@, token@),
        decreases all@.len() - i,
    {
        let p = all[i];
        let yaml = preset_yaml(p.id, uri.as_str(), health.as_str(), token);
        out.push(PresetConfig { id: p.id, label: p.label, description: p.description, yaml });
        i = i + 1;
    }
    let yaml = preset_yaml(selected, uri.as_str(), health.as_str(), token);
    proof {
        let ids = preset_ids();
        let k = choose|k: int| 0 <= k < ids.len() && ids[k] == selected@;
        assert(out@[k].id@ == selected@);
    }
    AgentBundle {
        token: String::from_str(token),
        uri,
        env,
        platform: selected,
        yaml,
        presets: out,
    }
}

} // verus!
