//! The worker's configuration: its shape, defaults and validation.
use crate::text::{
    chars_of, is_ws, str_has_prefix, trim, trim_str,
};
use vstd::prelude::*;

verus! {

pub struct Config {
    pub watch: WatchConfig,
    pub extract: ExtractConfig,
    pub output: OutputConfig,
    pub history: HistoryConfig,
    pub retry: RetryConfig,
    pub startup: StartupConfig,
    pub notifications: NotificationConfig,
    pub web: WebConfig,
}

pub struct WatchConfig {
    pub directory: String,
    pub directories: Vec<String>,
    pub stable_after: u64,
    pub allow_root_archives: bool,
}

pub struct ExtractConfig {
    pub delete_archives: bool,
    pub keep_failed: bool,
    pub password_file: String,
    pub dry_run: bool,
}

pub struct OutputConfig {
    pub directory: String,
}

pub struct HistoryConfig {
    pub directory: String,
}

pub struct RetryConfig {
    pub base_delay: u64,
    pub max_delay: u64,
}

pub struct StartupConfig {
    pub scan_existing: bool,
}

pub struct WebConfig {
    pub enabled: bool,
    pub bind: String,
}

pub struct NotificationConfig {
    pub enabled: bool,
    pub provider: String,
    pub ntfy: NtfyConfig,
    pub gotify: GotifyConfig,
}

pub struct NtfyConfig {
    pub server: String,
    pub topic: String,
    pub token: String,
    pub priority_success: u8,
    pub priority_error: u8,
    pub notify_on_worker_start: bool,
    pub notify_on_processing_start: bool,
    pub notify_on_success: bool,
    pub notify_on_error: bool,
    pub notify_on_every_error: bool,
    pub notify_after_attempts: u64,
}

/// Settings of the former Gotify provider, still parsed so that older
/// configuration files load.
pub struct GotifyConfig {
    pub enabled: bool,
    pub url: String,
    pub token: String,
    pub priority_success: i32,
    pub priority_error: i32,
    pub notify_on_success: bool,
    pub notify_on_error: bool,
    pub notify_on_every_error: bool,
    pub notify_after_attempts: u64,
}

// ------------------------------------------------------------------
// Defaults
// ------------------------------------------------------------------

pub fn default_stable_after() -> (r: u64)
    ensures
        r == 30,
{
    30
}

pub fn default_delete_archives() -> (r: bool)
    ensures
        r,
{
    true
}

pub fn default_keep_failed() -> (r: bool)
    ensures
        r,
{
    true
}

pub fn default_output_directory() -> (r: String)
    ensures
        r@ == "/downloads/_extracted"@,
{
    crate::text::copy_str("/downloads/_extracted")
}

pub fn default_history_directory() -> (r: String)
    ensures
        r@ == "/state/history"@,
{
    crate::text::copy_str("/state/history")
}

pub fn default_retry_base_delay() -> (r: u64)
    ensures
        r == 60,
{
    60
}

pub fn default_retry_max_delay() -> (r: u64)
    ensures
        r == 1800,
{
    1800
}

pub fn default_notification_provider() -> (r: String)
    ensures
        r@ == "ntfy"@,
{
    crate::text::copy_str("ntfy")
}

pub fn default_ntfy_priority_success() -> (r: u8)
    ensures
        r == 3,
{
    3
}

pub fn default_ntfy_priority_error() -> (r: u8)
    ensures
        r == 5,
{
    5
}

pub fn default_gotify_priority_success() -> (r: i32)
    ensures
        r == 3,
{
    3
}

pub fn default_gotify_priority_error() -> (r: i32)
    ensures
        r == 8,
{
    8
}

pub fn default_notify_on_success() -> (r: bool)
    ensures
        r,
{
    true
}

pub fn default_notify_on_error() -> (r: bool)
    ensures
        r,
{
    true
}

pub fn default_notify_after_attempts() -> (r: u64)
    ensures
        r == 3,
{
    3
}

pub fn default_web_bind() -> (r: String)
    ensures
        r@ == "0.0.0.0:8099"@,
{
    crate::text::copy_str("0.0.0.0:8099")
}

impl Default for ExtractConfig {
    fn default() -> (r: Self)
        ensures
            r.delete_archives,
            r.keep_failed,
            r.password_file@.len() == 0,
            !r.dry_run,
    {
        ExtractConfig {
            delete_archives: default_delete_archives(),
            keep_failed: default_keep_failed(),
            password_file: String::new(),
            dry_run: false,
        }
    }
}

impl Default for OutputConfig {
    fn default() -> (r: Self)
        ensures
            r.directory@ == "/downloads/_extracted"@,
    {
        OutputConfig { directory: default_output_directory() }
    }
}

impl Default for HistoryConfig {
    fn default() -> (r: Self)
        ensures
            r.directory@ == "/state/history"@,
    {
        HistoryConfig { directory: default_history_directory() }
    }
}

impl Default for RetryConfig {
    fn default() -> (r: Self)
        ensures
            r.base_delay == 60,
            r.max_delay == 1800,
    {
        RetryConfig { base_delay: default_retry_base_delay(), max_delay: default_retry_max_delay() }
    }
}

impl Default for StartupConfig {
    fn default() -> (r: Self)
        ensures
            !r.scan_existing,
    {
        StartupConfig { scan_existing: false }
    }
}

impl Default for WebConfig {
    fn default() -> (r: Self)
        ensures
            !r.enabled,
            r.bind@ == "0.0.0.0:8099"@,
    {
        WebConfig { enabled: false, bind: default_web_bind() }
    }
}

impl Default for NtfyConfig {
    fn default() -> (r: Self)
        ensures
            r.server@.len() == 0,
            r.topic@.len() == 0,
            r.token@.len() == 0,
            r.priority_success == 3,
            r.priority_error == 5,
            !r.notify_on_worker_start,
            !r.notify_on_processing_start,
            r.notify_on_success,
            r.notify_on_error,
            !r.notify_on_every_error,
            r.notify_after_attempts == 3,
    {
        NtfyConfig {
            server: String::new(),
            topic: String::new(),
            token: String::new(),
            priority_success: default_ntfy_priority_success(),
            priority_error: default_ntfy_priority_error(),
            notify_on_worker_start: false,
            notify_on_processing_start: false,
            notify_on_success: default_notify_on_success(),
            notify_on_error: default_notify_on_error(),
            notify_on_every_error: false,
            notify_after_attempts: default_notify_after_attempts(),
        }
    }
}

impl Default for GotifyConfig {
    fn default() -> (r: Self)
        ensures
            !r.enabled,
            r.url@.len() == 0,
            r.token@.len() == 0,
            r.priority_success == 3,
            r.priority_error == 8,
            r.notify_on_success,
            r.notify_on_error,
            !r.notify_on_every_error,
            r.notify_after_attempts == 3,
    {
        GotifyConfig {
            enabled: false,
            url: String::new(),
            token: String::new(),
            priority_success: default_gotify_priority_success(),
            priority_error: default_gotify_priority_error(),
            notify_on_success: default_notify_on_success(),
            notify_on_error: default_notify_on_error(),
            notify_on_every_error: false,
            notify_after_attempts: default_notify_after_attempts(),
        }
    }
}

impl Default for NotificationConfig {
    fn default() -> (r: Self)
        ensures
            !r.enabled,
            r.provider@ == "ntfy"@,
            r.ntfy.server@.len() == 0,
            r.ntfy.topic@.len() == 0,
            r.ntfy.token@.len() == 0,
            r.ntfy.priority_success == 3,
            r.ntfy.priority_error == 5,
            r.ntfy.notify_after_attempts == 3,
            !r.gotify.enabled,
    {
        NotificationConfig {
            enabled: false,
            provider: default_notification_provider(),
            ntfy: NtfyConfig::default(),
            gotify: GotifyConfig::default(),
        }
    }
}

// ------------------------------------------------------------------
// Watch directories
// ------------------------------------------------------------------

pub open spec fn views(v: Seq<String>) -> Seq<Seq<char>> {
    v.map_values(|s: String| s@)
}

/// The directories to watch, from a list of configured entries: each entry
/// trimmed, empty entries dropped, later repetitions dropped.
pub open spec fn resolve_dirs(items: Seq<Seq<char>>) -> Seq<Seq<char>>
    decreases items.len(),
{
    if items.len() == 0 {
        Seq::empty()
    } else {
        resolve_step(resolve_dirs(items.drop_last()), items.last())
    }
}

/// The configured entries: `directory` first, then `directories`.
pub open spec fn watch_entries(w: WatchConfig) -> Seq<Seq<char>> {
    seq![w.directory@] + views(w.directories@)
}

/// One step of `resolve_dirs`: the entry trimmed and appended unless it is
/// empty or already present.
pub open spec fn resolve_step(acc: Seq<Seq<char>>, entry: Seq<char>) -> Seq<Seq<char>> {
    let d = trim(entry);
    if d.len() == 0 || acc.contains(d) {
        acc
    } else {
        acc.push(d)
    }
}

fn push_resolved(out: &mut Vec<String>, seen: &mut Vec<Vec<char>>, entry: &String)
    requires
        old(seen)@.len() == old(out)@.len(),
        forall|k: int| 0 <= k < old(seen)@.len() ==> #[trigger] old(seen)@[k]@ == old(out)@[k]@,
    ensures
        views(final(out)@) == resolve_step(views(old(out)@), entry@),
        final(seen)@.len() == final(out)@.len(),
        forall|k: int| 0 <= k < final(seen)@.len() ==> #[trigger] final(seen)@[k]@ == final(out)@[k]@,
{
    let d = trim_str(entry.as_str());
    let dup = contains_chars(seen, &d);
    assert(dup == views(out@).contains(d@)) by {
        if dup {
            let k = choose|k: int| 0 <= k < seen@.len() && seen@[k]@ == d@;
            assert(views(out@)[k] == d@);
        }
        if views(out@).contains(d@) {
            let k = choose|k: int| 0 <= k < views(out@).len() && views(out@)[k] == d@;
            assert(seen@[k]@ == d@);
        }
    }
    if d.len() > 0 && !dup {
        let ghost before = views(out@);
        let s = crate::text::string_of(&d);
        out.push(s);
        seen.push(d);
        assert(views(out@) =~= before.push(d@));
    }
}

impl WatchConfig {
    /// The directories to watch: `directory`, then `directories`, each
    /// trimmed, without empty entries and without repetitions.
    pub fn resolved_directories(&self) -> (r: Vec<String>)
        ensures
            views(r@) == resolve_dirs(watch_entries(*self)),
    {
        let ghost items = watch_entries(*self);
        let mut out: Vec<String> = Vec::new();
        let mut seen: Vec<Vec<char>> = Vec::new();
        assert(views(out@) =~= Seq::<Seq<char>>::empty());
        push_resolved(&mut out, &mut seen, &self.directory);
        assert(items.take(1).drop_last() =~= Seq::<Seq<char>>::empty());
        assert(items.take(1).last() == self.directory@);
        assert(resolve_dirs(Seq::<Seq<char>>::empty()) == Seq::<Seq<char>>::empty());
        assert(views(out@) == resolve_dirs(items.take(1)));
        let n = self.directories.len();
        let mut j: usize = 0;
        while j < n
            invariant
                n == self.directories@.len(),
                items == watch_entries(*self),
                items.len() == n + 1,
                j <= n,
                views(out@) == resolve_dirs(items.take(j + 1)),
                seen@.len() == out@.len(),
                forall|k: int| 0 <= k < seen@.len() ==> #[trigger] seen@[k]@ == out@[k]@,
            decreases n - j,
        {
            assert(items[j + 1] == self.directories@[j as int]@);
            assert(items.take(j + 2).drop_last() =~= items.take(j + 1));
            push_resolved(&mut out, &mut seen, &self.directories[j]);
            j = j + 1;
        }
        assert(items.take(n + 1) =~= items);
        out
    }
}

pub fn contains_chars(list: &Vec<Vec<char>>, item: &Vec<char>) -> (r: bool)
    ensures
        r == exists|k: int| 0 <= k < list@.len() && list@[k]@ == item@,
{
    let mut i: usize = 0;
    while i < list.len()
        invariant
            i <= list@.len(),
            forall|k: int| 0 <= k < i ==> list@[k]@ != item@,
        decreases list.len() - i,
    {
        if crate::text::chars_eq(&list[i], item) {
            return true;
        }
        i = i + 1;
    }
    false
}

// ------------------------------------------------------------------
// Validation
// ------------------------------------------------------------------

/// Why a configuration is refused.
#[derive(PartialEq, Eq, Structural, Clone, Copy, Debug)]
pub enum ConfigError {
    NoWatchDirectory,
    StableAfterZero,
    OutputDirectoryEmpty,
    HistoryDirectoryEmpty,
    RetryBaseDelayZero,
    RetryMaxBelowBase,
    UnsupportedProvider,
    NtfyServerEmpty,
    NtfyServerScheme,
    NtfyTopicEmpty,
    NtfyTopicInvalid,
    NtfyPrioritySuccess,
    NtfyPriorityError,
    NtfyAttemptsZero,
    GotifyUrlEmpty,
    GotifyTokenEmpty,
}

impl ConfigError {
    /// The message shown to the user; it names the offending setting.
    pub fn message(&self) -> (r: &'static str)
        ensures
            r@ == config_error_message(*self),
    {
        match self {
            ConfigError::NoWatchDirectory => "Config ungültig: watch.directory oder watch.directories muss mindestens einen Ordner enthalten",
            ConfigError::StableAfterZero => "Config ungültig: watch.stable_after muss größer als 0 sein",
            ConfigError::OutputDirectoryEmpty => "Config ungültig: output.directory darf nicht leer sein",
            ConfigError::HistoryDirectoryEmpty => "Config ungültig: history.directory darf nicht leer sein",
            ConfigError::RetryBaseDelayZero => "Config ungültig: retry.base_delay muss größer als 0 sein",
            ConfigError::RetryMaxBelowBase => "Config ungültig: retry.max_delay darf nicht kleiner als retry.base_delay sein",
            ConfigError::UnsupportedProvider => "Config ungültig: notifications.provider muss für v1.1.0 'ntfy' sein",
            ConfigError::NtfyServerEmpty => "Config ungültig: ntfy ist aktiviert, aber server ist leer",
            ConfigError::NtfyServerScheme => "Config ungültig: notifications.ntfy.server muss mit http:// oder https:// beginnen",
            ConfigError::NtfyTopicEmpty => "Config ungültig: ntfy ist aktiviert, aber topic ist leer",
            ConfigError::NtfyTopicInvalid => "Config ungültig: notifications.ntfy.topic darf keine Leerzeichen, '?' oder '#' enthalten",
            ConfigError::NtfyPrioritySuccess => "Config ungültig: notifications.ntfy.priority_success muss zwischen 1 und 5 liegen",
            ConfigError::NtfyPriorityError => "Config ungültig: notifications.ntfy.priority_error muss zwischen 1 und 5 liegen",
            ConfigError::NtfyAttemptsZero => "Config ungültig: notifications.ntfy.notify_after_attempts muss mindestens 1 sein",
            ConfigError::GotifyUrlEmpty => "Config ungültig: Gotify ist aktiviert, aber url ist leer",
            ConfigError::GotifyTokenEmpty => "Config ungültig: Gotify ist aktiviert, aber token ist leer",
        }
    }
}

pub open spec fn config_error_message(e: ConfigError) -> Seq<char> {
    match e {
        ConfigError::NoWatchDirectory => "Config ungültig: watch.directory oder watch.directories muss mindestens einen Ordner enthalten"@,
        ConfigError::StableAfterZero => "Config ungültig: watch.stable_after muss größer als 0 sein"@,
        ConfigError::OutputDirectoryEmpty => "Config ungültig: output.directory darf nicht leer sein"@,
        ConfigError::HistoryDirectoryEmpty => "Config ungültig: history.directory darf nicht leer sein"@,
        ConfigError::RetryBaseDelayZero => "Config ungültig: retry.base_delay muss größer als 0 sein"@,
        ConfigError::RetryMaxBelowBase => "Config ungültig: retry.max_delay darf nicht kleiner als retry.base_delay sein"@,
        ConfigError::UnsupportedProvider => "Config ungültig: notifications.provider muss für v1.1.0 'ntfy' sein"@,
        ConfigError::NtfyServerEmpty => "Config ungültig: ntfy ist aktiviert, aber server ist leer"@,
        ConfigError::NtfyServerScheme => "Config ungültig: notifications.ntfy.server muss mit http:// oder https:// beginnen"@,
        ConfigError::NtfyTopicEmpty => "Config ungültig: ntfy ist aktiviert, aber topic ist leer"@,
        ConfigError::NtfyTopicInvalid => "Config ungültig: notifications.ntfy.topic darf keine Leerzeichen, '?' oder '#' enthalten"@,
        ConfigError::NtfyPrioritySuccess => "Config ungültig: notifications.ntfy.priority_success muss zwischen 1 und 5 liegen"@,
        ConfigError::NtfyPriorityError => "Config ungültig: notifications.ntfy.priority_error muss zwischen 1 und 5 liegen"@,
        ConfigError::NtfyAttemptsZero => "Config ungültig: notifications.ntfy.notify_after_attempts muss mindestens 1 sein"@,
        ConfigError::GotifyUrlEmpty => "Config ungültig: Gotify ist aktiviert, aber url ist leer"@,
        ConfigError::GotifyTokenEmpty => "Config ungültig: Gotify ist aktiviert, aber token ist leer"@,
    }
}

/// A topic that ntfy accepts: no whitespace, no `?`, no `#`.
pub open spec fn topic_chars_ok(t: Seq<char>) -> bool {
    forall|i: int| 0 <= i < t.len() ==> !is_ws(#[trigger] t[i]) && t[i] != '?' && t[i] != '#'
}

/// The first check that `c` fails, in the order in which they are made.
pub open spec fn config_error(c: Config) -> Option<ConfigError> {
    let ntfy = c.notifications.ntfy;
    let server = trim(ntfy.server@);
    let topic = trim(ntfy.topic@);
    if resolve_dirs(watch_entries(c.watch)).len() == 0 {
        Some(ConfigError::NoWatchDirectory)
    } else if c.watch.stable_after == 0 {
        Some(ConfigError::StableAfterZero)
    } else if trim(c.output.directory@).len() == 0 {
        Some(ConfigError::OutputDirectoryEmpty)
    } else if trim(c.history.directory@).len() == 0 {
        Some(ConfigError::HistoryDirectoryEmpty)
    } else if c.retry.base_delay == 0 {
        Some(ConfigError::RetryBaseDelayZero)
    } else if c.retry.max_delay < c.retry.base_delay {
        Some(ConfigError::RetryMaxBelowBase)
    } else if c.notifications.enabled && trim(c.notifications.provider@) != "ntfy"@ {
        Some(ConfigError::UnsupportedProvider)
    } else if c.notifications.enabled && server.len() == 0 {
        Some(ConfigError::NtfyServerEmpty)
    } else if c.notifications.enabled && !"http://"@.is_prefix_of(server)
        && !"https://"@.is_prefix_of(server) {
        Some(ConfigError::NtfyServerScheme)
    } else if c.notifications.enabled && topic.len() == 0 {
        Some(ConfigError::NtfyTopicEmpty)
    } else if c.notifications.enabled && !topic_chars_ok(topic) {
        Some(ConfigError::NtfyTopicInvalid)
    } else if c.notifications.enabled && !(1 <= ntfy.priority_success <= 5) {
        Some(ConfigError::NtfyPrioritySuccess)
    } else if c.notifications.enabled && !(1 <= ntfy.priority_error <= 5) {
        Some(ConfigError::NtfyPriorityError)
    } else if c.notifications.enabled && ntfy.notify_after_attempts == 0 {
        Some(ConfigError::NtfyAttemptsZero)
    } else if c.notifications.gotify.enabled && trim(c.notifications.gotify.url@).len() == 0 {
        Some(ConfigError::GotifyUrlEmpty)
    } else if c.notifications.gotify.enabled && trim(c.notifications.gotify.token@).len() == 0 {
        Some(ConfigError::GotifyTokenEmpty)
    } else {
        None
    }
}

fn topic_ok(t: &[char]) -> (r: bool)
    ensures
        r == topic_chars_ok(t@),
{
    let mut i: usize = 0;
    while i < t.len()
        invariant
            i <= t@.len(),
            forall|k: int| 0 <= k < i ==> !is_ws(#[trigger] t@[k]) && t@[k] != '?' && t@[k] != '#',
        decreases t.len() - i,
    {
        let c = t[i];
        if crate::text::is_whitespace(c) || c == '?' || c == '#' {
            return false;
        }
        i = i + 1;
    }
    true
}

/// Checks a loaded configuration; the error names the first setting that is
/// out of range.
pub fn validate_config(config: &Config) -> (r: Result<(), ConfigError>)
    ensures
        match r {
            Ok(()) => config_error(*config) is None,
            Err(e) => config_error(*config) == Some(e),
        },
{
    let dirs = config.watch.resolved_directories();
    if dirs.len() == 0 {
        return Err(ConfigError::NoWatchDirectory);
    }
    if config.watch.stable_after == 0 {
        return Err(ConfigError::StableAfterZero);
    }
    if crate::text::is_blank(config.output.directory.as_str()) {
        return Err(ConfigError::OutputDirectoryEmpty);
    }
    if crate::text::is_blank(config.history.directory.as_str()) {
        return Err(ConfigError::HistoryDirectoryEmpty);
    }
    if config.retry.base_delay == 0 {
        return Err(ConfigError::RetryBaseDelayZero);
    }
    if config.retry.max_delay < config.retry.base_delay {
        return Err(ConfigError::RetryMaxBelowBase);
    }
    if config.notifications.enabled {
        let provider = trim_str(config.notifications.provider.as_str());
        let ntfy_name = chars_of("ntfy");
        if !crate::text::chars_eq(&provider, &ntfy_name) {
            return Err(ConfigError::UnsupportedProvider);
        }
        let ntfy = &config.notifications.ntfy;
        let server = trim_str(ntfy.server.as_str());
        let topic = trim_str(ntfy.topic.as_str());
        if server.len() == 0 {
            return Err(ConfigError::NtfyServerEmpty);
        }
        if !str_has_prefix(&server, "http://") && !str_has_prefix(&server, "https://") {
            return Err(ConfigError::NtfyServerScheme);
        }
        if topic.len() == 0 {
            return Err(ConfigError::NtfyTopicEmpty);
        }
        if !topic_ok(&topic) {
            return Err(ConfigError::NtfyTopicInvalid);
        }
        if !(1 <= ntfy.priority_success && ntfy.priority_success <= 5) {
            return Err(ConfigError::NtfyPrioritySuccess);
        }
        if !(1 <= ntfy.priority_error && ntfy.priority_error <= 5) {
            return Err(ConfigError::NtfyPriorityError);
        }
        if ntfy.notify_after_attempts == 0 {
            return Err(ConfigError::NtfyAttemptsZero);
        }
    }
    if config.notifications.gotify.enabled {
        if crate::text::is_blank(config.notifications.gotify.url.as_str()) {
            return Err(ConfigError::GotifyUrlEmpty);
        }
        if crate::text::is_blank(config.notifications.gotify.token.as_str()) {
            return Err(ConfigError::GotifyTokenEmpty);
        }
    }
    Ok(())
}

} // verus!

verus! {

// ------------------------------------------------------------------
// Debug output with the secrets held back
// ------------------------------------------------------------------

/// What `format!("{:?}", s)` writes for a string slice: the quoted and
/// escaped text.
pub uninterp spec fn debug_text(s: Seq<char>) -> Seq<char>;

/// `<str as Debug>::fmt` through `format!`; the contract names the result.
#[verifier::external_body]
pub(crate) fn debug_quoted(s: &str) -> (r: String)
    ensures
        r@ == debug_text(s@),
{
    format!("{:?}", s)
}

pub open spec fn bool_text(b: bool) -> Seq<char> {
    if b {
        "true"@
    } else {
        "false"@
    }
}

/// What stands in the debug output in place of a token.
pub open spec fn token_display(token: Seq<char>) -> Seq<char> {
    if trim(token).len() == 0 {
        "<empty>"@
    } else {
        "<redacted>"@
    }
}

pub open spec fn ntfy_debug(c: NtfyConfig) -> Seq<char> {
    "NtfyConfig { server: "@ + debug_text(c.server@) + ", topic: "@ + debug_text(c.topic@)
        + ", token: "@ + debug_text(token_display(c.token@)) + ", priority_success: "@
        + crate::text::dec(c.priority_success as nat) + ", priority_error: "@ + crate::text::dec(
        c.priority_error as nat,
    ) + ", notify_on_worker_start: "@ + bool_text(c.notify_on_worker_start)
        + ", notify_on_processing_start: "@ + bool_text(c.notify_on_processing_start)
        + ", notify_on_success: "@ + bool_text(c.notify_on_success) + ", notify_on_error: "@
        + bool_text(c.notify_on_error) + ", notify_on_every_error: "@ + bool_text(
        c.notify_on_every_error,
    ) + ", notify_after_attempts: "@ + crate::text::dec(c.notify_after_attempts as nat) + " }"@
}

pub open spec fn gotify_debug(c: GotifyConfig) -> Seq<char> {
    "GotifyConfig { enabled: "@ + bool_text(c.enabled) + ", url: "@ + debug_text(c.url@)
        + ", token: "@ + debug_text(token_display(c.token@)) + ", priority_success: "@
        + crate::text::dec_int(c.priority_success as int) + ", priority_error: "@
        + crate::text::dec_int(c.priority_error as int) + ", notify_on_success: "@ + bool_text(
        c.notify_on_success,
    ) + ", notify_on_error: "@ + bool_text(c.notify_on_error) + ", notify_on_every_error: "@
        + bool_text(c.notify_on_every_error) + ", notify_after_attempts: "@ + crate::text::dec(
        c.notify_after_attempts as nat,
    ) + " }"@
}

fn push_bool(out: &mut Vec<char>, b: bool)
    ensures
        final(out)@ == old(out)@ + bool_text(b),
{
    if b {
        crate::text::extend_str(out, "true");
    } else {
        crate::text::extend_str(out, "false");
    }
}

fn push_token_display(out: &mut Vec<char>, token: &String)
    ensures
        final(out)@ == old(out)@ + debug_text(token_display(token@)),
{
    let shown = if crate::text::is_blank(token.as_str()) {
        debug_quoted("<empty>")
    } else {
        debug_quoted("<redacted>")
    };
    crate::text::extend_str(out, shown.as_str());
}

impl NtfyConfig {
    /// The `Debug` text of the settings; the token is shown only as
    /// `<empty>` or `<redacted>`.
    pub fn debug_string(&self) -> (r: String)
        ensures
            r@ == ntfy_debug(*self),
    {
        let mut out: Vec<char> = Vec::new();
        crate::text::extend_str(&mut out, "NtfyConfig { server: ");
        crate::text::extend_str(&mut out, debug_quoted(self.server.as_str()).as_str());
        crate::text::extend_str(&mut out, ", topic: ");
        crate::text::extend_str(&mut out, debug_quoted(self.topic.as_str()).as_str());
        crate::text::extend_str(&mut out, ", token: ");
        push_token_display(&mut out, &self.token);
        crate::text::extend_str(&mut out, ", priority_success: ");
        crate::text::push_dec(&mut out, self.priority_success as u64);
        crate::text::extend_str(&mut out, ", priority_error: ");
        crate::text::push_dec(&mut out, self.priority_error as u64);
        crate::text::extend_str(&mut out, ", notify_on_worker_start: ");
        push_bool(&mut out, self.notify_on_worker_start);
        crate::text::extend_str(&mut out, ", notify_on_processing_start: ");
        push_bool(&mut out, self.notify_on_processing_start);
        crate::text::extend_str(&mut out, ", notify_on_success: ");
        push_bool(&mut out, self.notify_on_success);
        crate::text::extend_str(&mut out, ", notify_on_error: ");
        push_bool(&mut out, self.notify_on_error);
        crate::text::extend_str(&mut out, ", notify_on_every_error: ");
        push_bool(&mut out, self.notify_on_every_error);
        crate::text::extend_str(&mut out, ", notify_after_attempts: ");
        crate::text::push_dec(&mut out, self.notify_after_attempts);
        crate::text::extend_str(&mut out, " }");
        assert(out@ =~= ntfy_debug(*self));
        crate::text::string_of(&out)
    }
}

impl GotifyConfig {
    /// The `Debug` text of the settings; the token is shown only as
    /// `<empty>` or `<redacted>`.
    pub fn debug_string(&self) -> (r: String)
        ensures
            r@ == gotify_debug(*self),
    {
        let mut out: Vec<char> = Vec::new();
        crate::text::extend_str(&mut out, "GotifyConfig { enabled: ");
        push_bool(&mut out, self.enabled);
        crate::text::extend_str(&mut out, ", url: ");
        crate::text::extend_str(&mut out, debug_quoted(self.url.as_str()).as_str());
        crate::text::extend_str(&mut out, ", token: ");
        push_token_display(&mut out, &self.token);
        crate::text::extend_str(&mut out, ", priority_success: ");
        crate::text::push_dec_i64(&mut out, self.priority_success as i64);
        crate::text::extend_str(&mut out, ", priority_error: ");
        crate::text::push_dec_i64(&mut out, self.priority_error as i64);
        crate::text::extend_str(&mut out, ", notify_on_success: ");
        push_bool(&mut out, self.notify_on_success);
        crate::text::extend_str(&mut out, ", notify_on_error: ");
        push_bool(&mut out, self.notify_on_error);
        crate::text::extend_str(&mut out, ", notify_on_every_error: ");
        push_bool(&mut out, self.notify_on_every_error);
        crate::text::extend_str(&mut out, ", notify_after_attempts: ");
        crate::text::push_dec(&mut out, self.notify_after_attempts);
        crate::text::extend_str(&mut out, " }");
        assert(out@ =~= gotify_debug(*self));
        crate::text::string_of(&out)
    }
}

/// The debug output does not depend on the token beyond whether it is
/// blank: two settings that differ only in their (non-blank) tokens print
/// the same text, so no token value reaches the output.
pub proof fn law_debug_hides_token(a: NtfyConfig, b: NtfyConfig)
    requires
        a.server@ == b.server@,
        a.topic@ == b.topic@,
        a.priority_success == b.priority_success,
        a.priority_error == b.priority_error,
        a.notify_on_worker_start == b.notify_on_worker_start,
        a.notify_on_processing_start == b.notify_on_processing_start,
        a.notify_on_success == b.notify_on_success,
        a.notify_on_error == b.notify_on_error,
        a.notify_on_every_error == b.notify_on_every_error,
        a.notify_after_attempts == b.notify_after_attempts,
        (trim(a.token@).len() == 0) == (trim(b.token@).len() == 0),
    ensures
        ntfy_debug(a) == ntfy_debug(b),
{
}

/// The same for the former Gotify settings.
pub proof fn law_gotify_debug_hides_token(a: GotifyConfig, b: GotifyConfig)
    requires
        a.enabled == b.enabled,
        a.url@ == b.url@,
        a.priority_success == b.priority_success,
        a.priority_error == b.priority_error,
        a.notify_on_success == b.notify_on_success,
        a.notify_on_error == b.notify_on_error,
        a.notify_on_every_error == b.notify_on_every_error,
        a.notify_after_attempts == b.notify_after_attempts,
        (trim(a.token@).len() == 0) == (trim(b.token@).len() == 0),
    ensures
        gotify_debug(a) == gotify_debug(b),
{
}

// ------------------------------------------------------------------
// Laws of the watch directory list
// ------------------------------------------------------------------

/// The resolved watch directories are non-empty, distinct, each the trimmed
/// form of a configured entry, and every non-blank entry is represented.
pub proof fn law_resolved_directories(items: Seq<Seq<char>>)
    ensures
        resolve_dirs(items).no_duplicates(),
        forall|i: int|
            0 <= i < resolve_dirs(items).len() ==> #[trigger] resolve_dirs(items)[i].len() > 0,
        forall|i: int|
            0 <= i < resolve_dirs(items).len() ==> exists|k: int|
                0 <= k < items.len() && trim(#[trigger] items[k]) == #[trigger] resolve_dirs(
                    items,
                )[i],
        forall|k: int|
            0 <= k < items.len() && trim(#[trigger] items[k]).len() > 0 ==> resolve_dirs(
                items,
            ).contains(trim(items[k])),
    decreases items.len(),
{
    if items.len() > 0 {
        let prev = items.drop_last();
        law_resolved_directories(prev);
        let acc = resolve_dirs(prev);
        let d = trim(items.last());
        assert forall|i: int| 0 <= i < resolve_dirs(items).len() implies exists|k: int|
            0 <= k < items.len() && trim(#[trigger] items[k]) == #[trigger] resolve_dirs(
                items,
            )[i] by {
            if i < acc.len() {
                let k = choose|k: int| 0 <= k < prev.len() && trim(prev[k]) == acc[i];
                assert(items[k] == prev[k]);
            } else {
                assert(trim(items[items.len() - 1]) == resolve_dirs(items)[i]);
            }
        }
        assert forall|k: int|
            0 <= k < items.len() && trim(#[trigger] items[k]).len() > 0 implies resolve_dirs(
            items,
        ).contains(trim(items[k])) by {
            if k < prev.len() {
                assert(items[k] == prev[k]);
                let j = choose|j: int| 0 <= j < acc.len() && acc[j] == trim(prev[k]);
                assert(resolve_dirs(items)[j] == acc[j]);
            } else {
                if !acc.contains(d) {
                    assert(resolve_dirs(items)[acc.len() as int] == d);
                }
            }
        }
    }
}

/// A configuration with only the single legacy `directory` watches exactly
/// that directory (trimmed).
pub proof fn law_single_directory_compatible(w: WatchConfig)
    requires
        w.directories@.len() == 0,
        trim(w.directory@).len() > 0,
    ensures
        resolve_dirs(watch_entries(w)) == seq![trim(w.directory@)],
{
    let items = watch_entries(w);
    assert(items =~= seq![w.directory@]);
    assert(items.drop_last() =~= Seq::<Seq<char>>::empty());
    assert(resolve_dirs(items.drop_last()) == Seq::<Seq<char>>::empty());
    assert(items.last() == w.directory@);
    assert(!Seq::<Seq<char>>::empty().contains(trim(w.directory@)));
    assert(Seq::<Seq<char>>::empty().push(trim(w.directory@)) =~= seq![trim(w.directory@)]);
}

/// An ntfy server given with `http://` is as good as one given with
/// `https://`: a server that starts (after trimming) with either scheme
/// never fails the scheme check, and two configurations that differ only in
/// such servers get the same verdict, so a configuration that passes every
/// other check is accepted with a plain-http server too.
pub proof fn law_http_and_https_servers_accepted(a: Config, b: Config)
    requires
        "http://"@.is_prefix_of(trim(a.notifications.ntfy.server@)) || "https://"@.is_prefix_of(
            trim(a.notifications.ntfy.server@),
        ),
        "http://"@.is_prefix_of(trim(b.notifications.ntfy.server@)) || "https://"@.is_prefix_of(
            trim(b.notifications.ntfy.server@),
        ),
        a.watch == b.watch,
        a.output == b.output,
        a.history == b.history,
        a.retry == b.retry,
        a.notifications.enabled == b.notifications.enabled,
        a.notifications.provider == b.notifications.provider,
        a.notifications.ntfy.topic == b.notifications.ntfy.topic,
        a.notifications.ntfy.priority_success == b.notifications.ntfy.priority_success,
        a.notifications.ntfy.priority_error == b.notifications.ntfy.priority_error,
        a.notifications.ntfy.notify_after_attempts == b.notifications.ntfy.notify_after_attempts,
        a.notifications.gotify == b.notifications.gotify,
    ensures
        config_error(a) != Some(ConfigError::NtfyServerScheme),
        config_error(a) == config_error(b),
{
    reveal_strlit("http://");
    reveal_strlit("https://");
    let sa = trim(a.notifications.ntfy.server@);
    let sb = trim(b.notifications.ntfy.server@);
    assert(sa.len() > 0 && sb.len() > 0);
}

} // verus!
