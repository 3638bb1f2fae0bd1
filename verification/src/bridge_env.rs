//! Bridge start-up configuration: which environment values switch the
//! bridge on, which are required, and how each one is validated.
//!
//! The environment itself is read by the caller; this module receives what
//! each variable held and decides.

use vstd::prelude::*;

use crate::text::{
    chars_eq_str, chars_of, concat_strs, contains_char, decimal, decimal_string, is_blank, is_blank_str,
    is_nonempty_trimmed, is_nonempty_trimmed_str, trim, trim_chars,
};

verus! {

/// What reading one environment variable gave.
#[derive(Debug)]
pub enum EnvValue {
    /// The variable is set to valid Unicode.
    Present(String),
    /// The variable is not set.
    Absent,
    /// The variable is set but not valid Unicode; the text describes it.
    NotUnicode(String),
}

/// The kinds of start-up failure.
#[derive(Debug, Clone, Copy, PartialEq, Eq, Structural)]
pub enum SetupErrorKind {
    /// The switch variable holds a word that is neither on nor off.
    InvalidEnableValue,
    /// A variable could not be read (absent or not Unicode).
    UnreadableVar,
    /// A required path variable is blank.
    EmptyPath,
    /// An identifier is empty or has surrounding whitespace.
    InvalidId,
    /// An identifier holds a character outside the allowed set.
    InvalidIdChars,
    /// The auth token is empty, has surrounding whitespace or spans lines.
    InvalidSecret,
    /// The platform has neither Unix sockets nor Windows named pipes.
    UnsupportedPlatform,
}

/// A start-up failure: its kind and the message shown to the user.
#[derive(Debug)]
pub struct SetupError {
    pub kind: SetupErrorKind,
    pub message: String,
}

impl View for SetupError {
    type V = (SetupErrorKind, Seq<char>);

    open spec fn view(&self) -> (SetupErrorKind, Seq<char>) {
        (self.kind, self.message@)
    }
}

impl SetupError {
    /// The message shown to the user.
    pub fn message(&self) -> (m: String)
        ensures
            m@ == self.message@,
    {
        self.message.clone()
    }
}

/// Name of the variable that switches the bridge on.
pub open spec fn enable_env() -> Seq<char> {
    "YAZELIX_HELIX_BRIDGE"@
}

/// Name of the variable holding the state directory.
pub open spec fn state_dir_env() -> Seq<char> {
    "YAZELIX_STATE_DIR"@
}

/// Name of the variable holding the session id.
pub open spec fn session_id_env() -> Seq<char> {
    "YAZELIX_HELIX_BRIDGE_SESSION_ID"@
}

/// Name of the variable holding the instance id.
pub open spec fn instance_id_env() -> Seq<char> {
    "YAZELIX_HELIX_BRIDGE_INSTANCE_ID"@
}

/// Name of the variable holding the auth token.
pub open spec fn auth_token_env() -> Seq<char> {
    "YAZELIX_HELIX_BRIDGE_AUTH_TOKEN"@
}

/// The one value that switches the bridge on: exactly `1`.
pub open spec fn is_enable_value(v: Seq<char>) -> bool {
    v == "1"@
}

/// Words that switch the bridge off (after trimming).
pub open spec fn is_disable_word(t: Seq<char>) -> bool {
    t == "0"@ || t == "false"@ || t == "no"@ || t == "off"@
}

/// Whether `value` switches the bridge on: only the value `1` does.
pub fn matches_enabled(value: &str) -> (b: bool)
    ensures
        b == is_enable_value(value@),
{
    chars_eq_str(&chars_of(value), "1")
}

/// Whether `value` switches the bridge off.
pub fn matches_disabled(value: &str) -> (b: bool)
    ensures
        b == is_disable_word(trim(value@)),
{
    let t = trim_chars(&chars_of(value));
    chars_eq_str(&t, "0") || chars_eq_str(&t, "false") || chars_eq_str(&t, "no")
        || chars_eq_str(&t, "off")
}

/// Characters allowed in session and instance ids.
pub open spec fn is_id_char(c: char) -> bool {
    ('a' <= c && c <= 'z') || ('A' <= c && c <= 'Z') || ('0' <= c && c <= '9') || c == '.' || c
        == '-' || c == '_'
}

/// Every character of `s` is allowed in an id.
pub open spec fn all_id_chars(s: Seq<char>) -> bool {
    forall|i: int| 0 <= i < s.len() ==> is_id_char(#[trigger] s[i])
}

/// `s` is made of dots alone, like the path steps `.` and `..`.
pub open spec fn only_dots(s: Seq<char>) -> bool {
    forall|i: int| 0 <= i < s.len() ==> #[trigger] s[i] == '.'
}

/// An id the bridge accepts.
pub open spec fn is_valid_id(s: Seq<char>) -> bool {
    is_nonempty_trimmed(s) && all_id_chars(s) && !only_dots(s)
}

/// The message for an empty or untrimmed id.
pub open spec fn untrimmed_id_message(name: Seq<char>) -> Seq<char> {
    name + " must be non-empty and untrimmed"@
}

/// The message for an id with a character outside the allowed set.
pub open spec fn id_chars_message(name: Seq<char>) -> Seq<char> {
    name + " may only contain ASCII letters, numbers, dots, hyphens, and underscores"@
}

/// The message for an id made of dots alone.
pub open spec fn dots_id_message(name: Seq<char>) -> Seq<char> {
    name + " must not be made of dots alone"@
}

/// What checking an id gives: the id, or the error's kind and message.
pub open spec fn id_check(name: Seq<char>, value: Seq<char>) -> Result<
    Seq<char>,
    (SetupErrorKind, Seq<char>),
> {
    if !is_nonempty_trimmed(value) {
        Err((SetupErrorKind::InvalidId, untrimmed_id_message(name)))
    } else if !all_id_chars(value) {
        Err((SetupErrorKind::InvalidIdChars, id_chars_message(name)))
    } else if only_dots(value) {
        Err((SetupErrorKind::InvalidIdChars, dots_id_message(name)))
    } else {
        Ok(value)
    }
}

fn is_id_char_exec(c: char) -> (b: bool)
    ensures
        b == is_id_char(c),
{
    ('a' <= c && c <= 'z') || ('A' <= c && c <= 'Z') || ('0' <= c && c <= '9') || c == '.' || c
        == '-' || c == '_'
}

fn all_id_chars_exec(v: &Vec<char>) -> (b: bool)
    ensures
        b == all_id_chars(v@),
{
    let mut i: usize = 0;
    while i < v.len()
        invariant
            i <= v.len(),
            forall|k: int| 0 <= k < i ==> is_id_char(#[trigger] v@[k]),
        decreases v.len() - i,
    {
        if !is_id_char_exec(v[i]) {
            return false;
        }
        i = i + 1;
    }
    true
}

fn only_dots_exec(v: &Vec<char>) -> (b: bool)
    ensures
        b == only_dots(v@),
{
    let mut i: usize = 0;
    while i < v.len()
        invariant
            i <= v.len(),
            forall|k: int| 0 <= k < i ==> #[trigger] v@[k] == '.',
        decreases v.len() - i,
    {
        if v[i] != '.' {
            return false;
        }
        i = i + 1;
    }
    true
}

/// Checks a session or instance id: non-empty, without surrounding
/// whitespace, made of ASCII letters, digits, `.`, `-` and `_`, and not of
/// dots alone (so never `.` or `..`).
/// `name` is the variable's name, used in the message.
pub fn validate_id(name: &str, value: String) -> (r: Result<String, SetupError>)
    ensures
        match r {
            Ok(v) => id_check(name@, value@) == Ok::<Seq<char>, (SetupErrorKind, Seq<char>)>(v@),
            Err(e) => id_check(name@, value@) == Err::<Seq<char>, (SetupErrorKind, Seq<char>)>(e@),
        },
{
    if !is_nonempty_trimmed_str(value.as_str()) {
        return Err(
            SetupError {
                kind: SetupErrorKind::InvalidId,
                message: concat_strs(name, " must be non-empty and untrimmed"),
            },
        );
    }
    if !all_id_chars_exec(&chars_of(value.as_str())) {
        return Err(
            SetupError {
                kind: SetupErrorKind::InvalidIdChars,
                message: concat_strs(
                    name,
                    " may only contain ASCII letters, numbers, dots, hyphens, and underscores",
                ),
            },
        );
    }
    if only_dots_exec(&chars_of(value.as_str())) {
        return Err(
            SetupError {
                kind: SetupErrorKind::InvalidIdChars,
                message: concat_strs(name, " must not be made of dots alone"),
            },
        );
    }
    Ok(value)
}

/// The text that reading an unset variable gives.
pub open spec fn not_found_message() -> Seq<char> {
    "environment variable not found"@
}

/// What reading a required variable gives: its value, or the message.
pub open spec fn env_read(v: EnvValue) -> Result<Seq<char>, Seq<char>> {
    match v {
        EnvValue::Present(s) => Ok(s@),
        EnvValue::Absent => Err(not_found_message()),
        EnvValue::NotUnicode(d) => Err(d@),
    }
}

/// The value of an optional variable (`std::env::var(..).ok()`).
pub open spec fn env_opt(v: EnvValue) -> Option<Seq<char>> {
    match v {
        EnvValue::Present(s) => Some(s@),
        _ => None,
    }
}

fn read_required(value: EnvValue) -> (r: Result<String, SetupError>)
    ensures
        match r {
            Ok(s) => env_read(value) == Ok::<Seq<char>, Seq<char>>(s@),
            Err(e) => e.kind == SetupErrorKind::UnreadableVar && env_read(value) == Err::<
                Seq<char>,
                Seq<char>,
            >(e.message@),
        },
{
    match value {
        EnvValue::Present(s) => Ok(s),
        EnvValue::Absent => Err(
            SetupError {
                kind: SetupErrorKind::UnreadableVar,
                message: String::from_str("environment variable not found"),
            },
        ),
        EnvValue::NotUnicode(d) => Err(SetupError { kind: SetupErrorKind::UnreadableVar, message: d }),
    }
}

/// The message for a blank required path.
pub open spec fn empty_path_message(name: Seq<char>) -> Seq<char> {
    name + " must be non-empty when "@ + enable_env() + "=1"@
}

/// What checking a required path variable gives.
pub open spec fn path_check(name: Seq<char>, v: EnvValue) -> Result<
    Seq<char>,
    (SetupErrorKind, Seq<char>),
> {
    match env_read(v) {
        Err(m) => Err((SetupErrorKind::UnreadableVar, m)),
        Ok(s) => if is_blank(s) {
            Err((SetupErrorKind::EmptyPath, empty_path_message(name)))
        } else {
            Ok(s)
        },
    }
}

/// Reads a required path variable: it must be set and not blank.
pub fn required_path_env(name: &str, value: EnvValue) -> (r: Result<String, SetupError>)
    ensures
        match r {
            Ok(v) => path_check(name@, value) == Ok::<Seq<char>, (SetupErrorKind, Seq<char>)>(v@),
            Err(e) => path_check(name@, value) == Err::<Seq<char>, (SetupErrorKind, Seq<char>)>(e@),
        },
{
    let s = read_required(value)?;
    if is_blank_str(s.as_str()) {
        let mut m = concat_strs(name, " must be non-empty when ");
        m.append("YAZELIX_HELIX_BRIDGE");
        m.append("=1");
        return Err(SetupError { kind: SetupErrorKind::EmptyPath, message: m });
    }
    Ok(s)
}

/// What checking a required id variable gives.
pub open spec fn id_env_check(name: Seq<char>, v: EnvValue) -> Result<
    Seq<char>,
    (SetupErrorKind, Seq<char>),
> {
    match env_read(v) {
        Err(m) => Err((SetupErrorKind::UnreadableVar, m)),
        Ok(s) => id_check(name, s),
    }
}

/// Reads a required id variable and validates it.
pub fn required_id_env(name: &str, value: EnvValue) -> (r: Result<String, SetupError>)
    ensures
        match r {
            Ok(v) => id_env_check(name@, value) == Ok::<Seq<char>, (SetupErrorKind, Seq<char>)>(
                v@,
            ),
            Err(e) => id_env_check(name@, value) == Err::<Seq<char>, (SetupErrorKind, Seq<char>)>(
                e@,
            ),
        },
{
    let s = read_required(value)?;
    validate_id(name, s)
}

/// A secret the bridge accepts: non-empty, without surrounding whitespace,
/// and on one line.
pub open spec fn is_valid_secret(s: Seq<char>) -> bool {
    is_nonempty_trimmed(s) && !s.contains('\n') && !s.contains('\r')
}

/// The message for a rejected secret.
pub open spec fn secret_message(name: Seq<char>) -> Seq<char> {
    name + " must be non-empty, untrimmed, and single-line"@
}

/// What checking a required secret variable gives.
pub open spec fn secret_check(name: Seq<char>, v: EnvValue) -> Result<
    Seq<char>,
    (SetupErrorKind, Seq<char>),
> {
    match env_read(v) {
        Err(m) => Err((SetupErrorKind::UnreadableVar, m)),
        Ok(s) => if is_valid_secret(s) {
            Ok(s)
        } else {
            Err((SetupErrorKind::InvalidSecret, secret_message(name)))
        },
    }
}

/// Reads the auth token variable and validates it.
pub fn required_secret_env(name: &str, value: EnvValue) -> (r: Result<String, SetupError>)
    ensures
        match r {
            Ok(v) => secret_check(name@, value) == Ok::<Seq<char>, (SetupErrorKind, Seq<char>)>(
                v@,
            ),
            Err(e) => secret_check(name@, value) == Err::<Seq<char>, (SetupErrorKind, Seq<char>)>(
                e@,
            ),
        },
{
    let s = read_required(value)?;
    let v = chars_of(s.as_str());
    if !is_nonempty_trimmed_str(s.as_str()) || contains_char(&v, '\n') || contains_char(&v, '\r') {
        return Err(
            SetupError {
                kind: SetupErrorKind::InvalidSecret,
                message: concat_strs(name, " must be non-empty, untrimmed, and single-line"),
            },
        );
    }
    Ok(s)
}

/// The instance id used when none is configured: `hx-<pid>-<start ms>`.
pub open spec fn default_instance_id_spec(pid: nat, started_at_unix_ms: nat) -> Seq<char> {
    "hx-"@ + decimal(pid) + "-"@ + decimal(started_at_unix_ms)
}

/// The instance id used when none is configured, from the process id and
/// the start time in milliseconds since the Unix epoch.
pub fn default_instance_id(pid: u32, started_at_unix_ms: u128) -> (s: String)
    ensures
        s@ == default_instance_id_spec(pid as nat, started_at_unix_ms as nat),
{
    let mut s = String::from_str("hx-");
    s.append(decimal_string(pid as u128).as_str());
    s.append("-");
    s.append(decimal_string(started_at_unix_ms).as_str());
    s
}

/// What the process environment held at start-up, variable by variable,
/// with the process id and start time for the default instance id.
#[derive(Debug)]
pub struct BridgeEnv {
    pub enable: EnvValue,
    pub state_dir: EnvValue,
    pub session_id: EnvValue,
    pub instance_id: EnvValue,
    pub auth_token: EnvValue,
    pub managed_config_path: EnvValue,
    pub zellij_session_name: EnvValue,
    pub zellij_tab_position: EnvValue,
    pub zellij_pane_id: EnvValue,
    pub pid: u32,
    pub started_at_unix_ms: u128,
}

/// The settings of an enabled bridge.
#[derive(Debug)]
pub struct BridgeConfig {
    pub state_dir: String,
    pub session_id: String,
    pub instance_id: String,
    pub auth_token: String,
    pub managed_config_path: Option<String>,
    pub zellij_session_name: Option<String>,
    pub zellij_tab_position: Option<String>,
    pub zellij_pane_id: Option<String>,
}

/// The abstract value of a [`BridgeConfig`].
pub ghost struct BridgeConfigView {
    pub state_dir: Seq<char>,
    pub session_id: Seq<char>,
    pub instance_id: Seq<char>,
    pub auth_token: Seq<char>,
    pub managed_config_path: Option<Seq<char>>,
    pub zellij_session_name: Option<Seq<char>>,
    pub zellij_tab_position: Option<Seq<char>>,
    pub zellij_pane_id: Option<Seq<char>>,
}

/// The view of an optional string.
pub open spec fn opt_view(o: Option<String>) -> Option<Seq<char>> {
    match o {
        Some(s) => Some(s@),
        None => None,
    }
}

impl View for BridgeConfig {
    type V = BridgeConfigView;

    open spec fn view(&self) -> BridgeConfigView {
        BridgeConfigView {
            state_dir: self.state_dir@,
            session_id: self.session_id@,
            instance_id: self.instance_id@,
            auth_token: self.auth_token@,
            managed_config_path: opt_view(self.managed_config_path),
            zellij_session_name: opt_view(self.zellij_session_name),
            zellij_tab_position: opt_view(self.zellij_tab_position),
            zellij_pane_id: opt_view(self.zellij_pane_id),
        }
    }
}

/// The message for a switch value that is neither on nor off.
pub open spec fn invalid_enable_message(value: Seq<char>) -> Seq<char> {
    enable_env() + " must be 1 to enable the bridge, or one of 0, false, no, or off; got `"@
        + value + "`"@
}

/// What the switch variable decides: on, off, or an error.
pub open spec fn enable_check(v: EnvValue) -> Result<bool, (SetupErrorKind, Seq<char>)> {
    match v {
        EnvValue::Present(s) => if is_enable_value(s@) {
            Ok(true)
        } else if is_disable_word(trim(s@)) {
            Ok(false)
        } else {
            Err((SetupErrorKind::InvalidEnableValue, invalid_enable_message(s@)))
        },
        EnvValue::Absent => Ok(false),
        EnvValue::NotUnicode(d) => Err(
            (SetupErrorKind::UnreadableVar, "Could not read "@ + enable_env() + ": "@ + d@),
        ),
    }
}

/// The instance id: the configured one once validated, or the default
/// when the variable cannot be read.
pub open spec fn instance_check(env: BridgeEnv) -> Result<Seq<char>, (SetupErrorKind, Seq<char>)> {
    match env.instance_id {
        EnvValue::Present(s) => id_check(instance_id_env(), s@),
        _ => Ok(default_instance_id_spec(env.pid as nat, env.started_at_unix_ms as nat)),
    }
}

/// What start-up decides from the environment: no bridge, a bridge with
/// these settings, or the first failure in the order switch, state
/// directory, session id, instance id, auth token.
pub open spec fn config_outcome(env: BridgeEnv) -> Result<
    Option<BridgeConfigView>,
    (SetupErrorKind, Seq<char>),
> {
    match enable_check(env.enable) {
        Err(e) => Err(e),
        Ok(false) => Ok(None),
        Ok(true) => match path_check(state_dir_env(), env.state_dir) {
            Err(e) => Err(e),
            Ok(state_dir) => match id_env_check(session_id_env(), env.session_id) {
                Err(e) => Err(e),
                Ok(session_id) => match instance_check(env) {
                    Err(e) => Err(e),
                    Ok(instance_id) => match secret_check(auth_token_env(), env.auth_token) {
                        Err(e) => Err(e),
                        Ok(auth_token) => Ok(
                            Some(
                                BridgeConfigView {
                                    state_dir,
                                    session_id,
                                    instance_id,
                                    auth_token,
                                    managed_config_path: env_opt(env.managed_config_path),
                                    zellij_session_name: env_opt(env.zellij_session_name),
                                    zellij_tab_position: env_opt(env.zellij_tab_position),
                                    zellij_pane_id: env_opt(env.zellij_pane_id),
                                },
                            ),
                        ),
                    },
                },
            },
        },
    }
}

/// The abstract value of a start-up result.
pub open spec fn config_result_view(r: Result<Option<BridgeConfig>, SetupError>) -> Result<
    Option<BridgeConfigView>,
    (SetupErrorKind, Seq<char>),
> {
    match r {
        Ok(Some(c)) => Ok(Some(c@)),
        Ok(None) => Ok(None),
        Err(e) => Err(e@),
    }
}

fn env_ok(v: EnvValue) -> (r: Option<String>)
    ensures
        opt_view(r) == env_opt(v),
{
    match v {
        EnvValue::Present(s) => Some(s),
        _ => None,
    }
}

impl BridgeConfig {
    /// Decides whether the bridge runs and with which settings.
    pub fn from_env(env: BridgeEnv) -> (r: Result<Option<BridgeConfig>, SetupError>)
        ensures
            config_result_view(r) == config_outcome(env),
    {
        let enabled = match env.enable {
            EnvValue::Present(value) => {
                if matches_enabled(value.as_str()) {
                    true
                } else if matches_disabled(value.as_str()) {
                    false
                } else {
                    let mut m = String::from_str("YAZELIX_HELIX_BRIDGE");
                    m.append(" must be 1 to enable the bridge, or one of 0, false, no, or off; got `");
                    m.append(value.as_str());
                    m.append("`");
                    return Err(SetupError { kind: SetupErrorKind::InvalidEnableValue, message: m });
                }
            },
            EnvValue::Absent => false,
            EnvValue::NotUnicode(detail) => {
                let mut m = String::from_str("Could not read ");
                m.append("YAZELIX_HELIX_BRIDGE");
                m.append(": ");
                m.append(detail.as_str());
                return Err(SetupError { kind: SetupErrorKind::UnreadableVar, message: m });
            },
        };
        if !enabled {
            return Ok(None);
        }
        let state_dir = required_path_env("YAZELIX_STATE_DIR", env.state_dir)?;
        let session_id = required_id_env("YAZELIX_HELIX_BRIDGE_SESSION_ID", env.session_id)?;
        let instance_id = match env.instance_id {
            EnvValue::Present(value) => validate_id("YAZELIX_HELIX_BRIDGE_INSTANCE_ID", value)?,
            _ => default_instance_id(env.pid, env.started_at_unix_ms),
        };
        let auth_token = required_secret_env("YAZELIX_HELIX_BRIDGE_AUTH_TOKEN", env.auth_token)?;
        Ok(
            Some(
                BridgeConfig {
                    state_dir,
                    session_id,
                    instance_id,
                    auth_token,
                    managed_config_path: env_ok(env.managed_config_path),
                    zellij_session_name: env_ok(env.zellij_session_name),
                    zellij_tab_position: env_ok(env.zellij_tab_position),
                    zellij_pane_id: env_ok(env.zellij_pane_id),
                },
            ),
        )
    }
}

/// No value both switches the bridge on and switches it off.
pub proof fn lemma_switch_words_exclusive(value: Seq<char>)
    ensures
        !(is_enable_value(value) && is_disable_word(trim(value))),
{
    reveal_strlit("1");
    reveal_strlit("0");
    reveal_strlit("false");
    reveal_strlit("no");
    reveal_strlit("off");
    if is_enable_value(value) {
        assert(!crate::text::is_space(value[0]));
        assert(trim(value) =~= value);
        assert(trim(value)[0] == '1');
    }
}

/// An accepted id holds no path separator and is neither `.` nor `..`, so
/// it names a single file system entry inside the bridge directory.
pub proof fn lemma_valid_id_has_no_separator(id: Seq<char>)
    requires
        is_valid_id(id),
    ensures
        !id.contains('/'),
        !id.contains('\\'),
        id != "."@,
        id != ".."@,
{
    reveal_strlit(".");
    reveal_strlit("..");
    if id == "."@ {
        assert(only_dots(id));
    }
    if id == ".."@ {
        assert(only_dots(id));
    }
    if id.contains('/') {
        let i = choose|i: int| 0 <= i < id.len() && id[i] == '/';
        assert(is_id_char(id[i]));
    }
    if id.contains('\\') {
        let i = choose|i: int| 0 <= i < id.len() && id[i] == '\\';
        assert(is_id_char(id[i]));
    }
}

proof fn lemma_decimal_digits(n: nat)
    ensures
        decimal(n).len() > 0,
        forall|i: int| 0 <= i < decimal(n).len() ==> '0' <= #[trigger] decimal(n)[i] <= '9',
    decreases n,
{
    if n >= 10 {
        lemma_decimal_digits(n / 10);
        let p = decimal(n / 10);
        assert forall|i: int| 0 <= i < decimal(n).len() implies '0' <= #[trigger] decimal(n)[i]
            <= '9' by {
            if i < p.len() {
                assert(decimal(n)[i] == p[i]);
            }
        }
    }
}

proof fn lemma_trimmed_when_ends_not_space(s: Seq<char>)
    requires
        s.len() > 0,
        !crate::text::is_space(s[0]),
        !crate::text::is_space(s.last()),
    ensures
        trim(s) == s,
{
}

/// The default instance id is always an id the bridge accepts.
pub proof fn lemma_default_instance_id_valid(pid: nat, started_at_unix_ms: nat)
    ensures
        is_valid_id(default_instance_id_spec(pid, started_at_unix_ms)),
{
    reveal_strlit("hx-");
    reveal_strlit("-");
    lemma_decimal_digits(pid);
    lemma_decimal_digits(started_at_unix_ms);
    let a = decimal(pid);
    let b = decimal(started_at_unix_ms);
    let s = default_instance_id_spec(pid, started_at_unix_ms);
    assert(s =~= seq!['h', 'x', '-'] + a + seq!['-'] + b);
    assert forall|i: int| 0 <= i < s.len() implies is_id_char(#[trigger] s[i]) by {
        if i < 3 {
        } else if i < 3 + a.len() {
            assert(s[i] == a[i - 3]);
        } else if i == 3 + a.len() {
        } else {
            assert(s[i] == b[i - 4 - a.len()]);
        }
    }
    assert(s[0] == 'h');
    assert(!only_dots(s));
    assert(s.last() == b.last());
    lemma_trimmed_when_ends_not_space(s);
}

/// A bridge that starts has a non-blank state directory, session and
/// instance ids the bridge accepts, and a single-line auth token.
pub proof fn lemma_started_config_is_checked(env: BridgeEnv)
    ensures
        config_outcome(env) matches Ok(Some(c)) ==> {
            &&& !is_blank(c.state_dir)
            &&& is_valid_id(c.session_id)
            &&& is_valid_id(c.instance_id)
            &&& is_valid_secret(c.auth_token)
        },
{
    lemma_default_instance_id_valid(env.pid as nat, env.started_at_unix_ms as nat);
}


/// A bridge starts only when the switch is exactly `1`, and then takes each
/// setting from its own variable: the state directory, session id and auth
/// token from theirs; the instance id from its variable when that is set to
/// valid Unicode, else the default id; and each optional context value
/// (managed config path, Zellij session name, tab position, pane id) from
/// its own variable, absent when that is unset or not valid Unicode.
pub proof fn lemma_started_config_from_own_vars(env: BridgeEnv)
    ensures
        config_outcome(env) matches Ok(Some(c)) ==> {
            &&& env.enable matches EnvValue::Present(v) && v@ == "1"@
            &&& env.state_dir matches EnvValue::Present(v) && c.state_dir == v@
            &&& env.session_id matches EnvValue::Present(v) && c.session_id == v@
            &&& env.auth_token matches EnvValue::Present(v) && c.auth_token == v@
            &&& env.instance_id matches EnvValue::Present(v) ==> c.instance_id == v@
            &&& !(env.instance_id is Present) ==> c.instance_id == default_instance_id_spec(
                env.pid as nat,
                env.started_at_unix_ms as nat,
            )
            &&& env.managed_config_path matches EnvValue::Present(v) ==> c.managed_config_path
                == Some(v@)
            &&& !(env.managed_config_path is Present) ==> c.managed_config_path is None
            &&& env.zellij_session_name matches EnvValue::Present(v) ==> c.zellij_session_name
                == Some(v@)
            &&& !(env.zellij_session_name is Present) ==> c.zellij_session_name is None
            &&& env.zellij_tab_position matches EnvValue::Present(v) ==> c.zellij_tab_position
                == Some(v@)
            &&& !(env.zellij_tab_position is Present) ==> c.zellij_tab_position is None
            &&& env.zellij_pane_id matches EnvValue::Present(v) ==> c.zellij_pane_id == Some(v@)
            &&& !(env.zellij_pane_id is Present) ==> c.zellij_pane_id is None
        },
{
}

} // verus!
