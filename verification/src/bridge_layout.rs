//! Where a running bridge lives: its directory, registry and token files,
//! the local transport it listens on, and the registry it advertises.

use vstd::prelude::*;

use crate::bridge_env::{BridgeConfig, SetupError, SetupErrorKind};
use crate::bridge_protocol::BRIDGE_SCHEMA_VERSION;
use crate::text::{concat_strs, join_path, join_path_str};

verus! {

/// The operating system families the bridge knows.
#[derive(Debug, Clone, Copy, PartialEq, Eq, Structural)]
pub enum Platform {
    /// Unix-like: the bridge listens on a Unix socket.
    Unix,
    /// Native Windows: the bridge listens on a named pipe.
    Windows,
    /// Neither: the bridge cannot run.
    Other,
}

/// The local IPC endpoint a bridge listens on.
#[derive(Debug, Clone)]
pub enum BridgeTransport {
    UnixSocket { path: String },
    WindowsNamedPipe { name: String },
}

/// The message when the platform offers no bridge transport.
pub open spec fn unsupported_platform_message() -> Seq<char> {
    "Yazelix Helix bridge requires Unix sockets or Windows named pipes"@
}

/// The Unix socket path: `<bridge dir>/<instance id>.sock`.
pub open spec fn socket_path(bridge_dir: Seq<char>, instance_id: Seq<char>) -> Seq<char> {
    join_path(bridge_dir, instance_id + ".sock"@, false)
}

/// The Windows pipe name: `\\.\pipe\yazelix-helix-<session>-<instance>`.
pub open spec fn pipe_name(session_id: Seq<char>, instance_id: Seq<char>) -> Seq<char> {
    "\\\\.\\pipe\\yazelix-helix-"@ + session_id + "-"@ + instance_id
}

/// The transport a bridge listens on for this platform. On Unix the socket
/// sits in `bridge_dir`; the caller clears a stale socket file there.
pub fn bridge_transport(platform: Platform, config: &BridgeConfig, bridge_dir: &str) -> (r: Result<
    BridgeTransport,
    SetupError,
>)
    ensures
        match platform {
            Platform::Unix => r matches Ok(BridgeTransport::UnixSocket { path }) && path@
                == socket_path(bridge_dir@, config.instance_id@),
            Platform::Windows => r matches Ok(BridgeTransport::WindowsNamedPipe { name }) && name@
                == pipe_name(config.session_id@, config.instance_id@),
            Platform::Other => r matches Err(e) && e.kind == SetupErrorKind::UnsupportedPlatform
                && e.message@ == unsupported_platform_message(),
        },
{
    match platform {
        Platform::Unix => {
            let file = concat_strs(config.instance_id.as_str(), ".sock");
            Ok(BridgeTransport::UnixSocket { path: join_path_str(bridge_dir, file.as_str(), false) })
        },
        Platform::Windows => {
            let mut name = String::from_str("\\\\.\\pipe\\yazelix-helix-");
            name.append(config.session_id.as_str());
            name.append("-");
            name.append(config.instance_id.as_str());
            Ok(BridgeTransport::WindowsNamedPipe { name })
        },
        Platform::Other => Err(
            SetupError {
                kind: SetupErrorKind::UnsupportedPlatform,
                message: String::from_str(
                    "Yazelix Helix bridge requires Unix sockets or Windows named pipes",
                ),
            },
        ),
    }
}

/// The files of one bridge instance.
#[derive(Debug)]
pub struct BridgeLayout {
    pub bridge_dir: String,
    pub registry_path: String,
    pub token_path: String,
}

/// Whether paths on `platform` are written in the Windows style.
pub open spec fn windows_paths(platform: Platform) -> bool {
    platform == Platform::Windows
}

/// The bridge directory: `<state dir>/helix_bridge/<session id>`, in the
/// path style given by `windows`.
pub open spec fn bridge_dir_of(state_dir: Seq<char>, session_id: Seq<char>, windows: bool) -> Seq<
    char,
> {
    join_path(join_path(state_dir, "helix_bridge"@, windows), session_id, windows)
}

impl BridgeLayout {
    /// Where the bridge for `config` keeps its files on `platform`: the
    /// registry at `<bridge dir>/<instance id>.json`, the token at
    /// `<bridge dir>/<instance id>.token`.
    pub fn for_config(config: &BridgeConfig, platform: Platform) -> (l: BridgeLayout)
        ensures
            l.bridge_dir@ == bridge_dir_of(
                config.state_dir@,
                config.session_id@,
                windows_paths(platform),
            ),
            l.registry_path@ == join_path(
                l.bridge_dir@,
                config.instance_id@ + ".json"@,
                windows_paths(platform),
            ),
            l.token_path@ == join_path(
                l.bridge_dir@,
                config.instance_id@ + ".token"@,
                windows_paths(platform),
            ),
    {
        let windows = platform == Platform::Windows;
        let base = join_path_str(config.state_dir.as_str(), "helix_bridge", windows);
        let bridge_dir = join_path_str(base.as_str(), config.session_id.as_str(), windows);
        let registry_file = concat_strs(config.instance_id.as_str(), ".json");
        let token_file = concat_strs(config.instance_id.as_str(), ".token");
        let registry_path = join_path_str(bridge_dir.as_str(), registry_file.as_str(), windows);
        let token_path = join_path_str(bridge_dir.as_str(), token_file.as_str(), windows);
        BridgeLayout { bridge_dir, registry_path, token_path }
    }
}

/// What a running bridge advertises about itself.
#[derive(Debug)]
pub struct BridgeRegistry {
    pub schema_version: u8,
    pub session_id: String,
    pub instance_id: String,
    pub transport: BridgeTransport,
    pub auth_token_path: String,
    pub pid: u32,
    pub zellij_session_name: Option<String>,
    pub zellij_tab_position: Option<String>,
    pub zellij_pane_id: Option<String>,
    pub started_at_unix_ms: u128,
    pub managed_config_path: Option<String>,
}

/// The registry entry a bridge writes for `config`, listening on
/// `transport`, with its token in `token_path`.
pub fn bridge_registry(
    config: &BridgeConfig,
    transport: BridgeTransport,
    token_path: &str,
    pid: u32,
    started_at_unix_ms: u128,
) -> (r: BridgeRegistry)
    ensures
        r.schema_version == BRIDGE_SCHEMA_VERSION,
        r.session_id == config.session_id,
        r.instance_id == config.instance_id,
        r.transport == transport,
        r.auth_token_path@ == token_path@,
        r.pid == pid,
        r.zellij_session_name == config.zellij_session_name,
        r.zellij_tab_position == config.zellij_tab_position,
        r.zellij_pane_id == config.zellij_pane_id,
        r.started_at_unix_ms == started_at_unix_ms,
        r.managed_config_path == config.managed_config_path,
{
    BridgeRegistry {
        schema_version: BRIDGE_SCHEMA_VERSION,
        session_id: config.session_id.clone(),
        instance_id: config.instance_id.clone(),
        transport,
        auth_token_path: String::from_str(token_path),
        pid,
        zellij_session_name: config.zellij_session_name.clone(),
        zellij_tab_position: config.zellij_tab_position.clone(),
        zellij_pane_id: config.zellij_pane_id.clone(),
        started_at_unix_ms,
        managed_config_path: config.managed_config_path.clone(),
    }
}

} // verus!
