//! The configuration as the JSON endpoint of the web interface shows it:
//! the settings themselves, and for the secrets only whether they are set.
use crate::config::{resolve_dirs, views, watch_entries, Config};
use crate::pages::{filled, same_but_secrets};
use crate::text::{chars_of, is_blank, string_of};
use vstd::prelude::*;

verus! {

/// The values of `/api/config`.
pub struct ApiConfig {
    pub watch_directory: String,
    pub watch_directories: Vec<String>,
    pub stable_after: u64,
    pub allow_root_archives: bool,
    pub delete_archives: bool,
    pub dry_run: bool,
    pub keep_failed: bool,
    pub password_file_configured: bool,
    pub output_directory: String,
    pub history_directory: String,
    pub base_delay: u64,
    pub max_delay: u64,
    pub scan_existing: bool,
    pub gotify_enabled: bool,
    pub gotify_url_configured: bool,
    pub gotify_token_configured: bool,
    pub gotify_priority_success: i32,
    pub gotify_priority_error: i32,
    pub gotify_notify_on_success: bool,
    pub gotify_notify_on_error: bool,
    pub gotify_notify_on_every_error: bool,
    pub gotify_notify_after_attempts: u64,
    pub web_enabled: bool,
    pub web_bind: String,
}

/// `r` is what `/api/config` shows of `c`: the plain settings as they are,
/// the resolved watch directories, and of the password file, the Gotify URL
/// and the Gotify token only whether they are set (not blank).
pub open spec fn api_config_shows(r: ApiConfig, c: Config) -> bool {
    let g = c.notifications.gotify;
    &&& r.watch_directory@ == c.watch.directory@
    &&& views(r.watch_directories@) == resolve_dirs(watch_entries(c.watch))
    &&& r.stable_after == c.watch.stable_after
    &&& r.allow_root_archives == c.watch.allow_root_archives
    &&& r.delete_archives == c.extract.delete_archives
    &&& r.dry_run == c.extract.dry_run
    &&& r.keep_failed == c.extract.keep_failed
    &&& r.password_file_configured == filled(c.extract.password_file@)
    &&& r.output_directory@ == c.output.directory@
    &&& r.history_directory@ == c.history.directory@
    &&& r.base_delay == c.retry.base_delay
    &&& r.max_delay == c.retry.max_delay
    &&& r.scan_existing == c.startup.scan_existing
    &&& r.gotify_enabled == g.enabled
    &&& r.gotify_url_configured == filled(g.url@)
    &&& r.gotify_token_configured == filled(g.token@)
    &&& r.gotify_priority_success == g.priority_success
    &&& r.gotify_priority_error == g.priority_error
    &&& r.gotify_notify_on_success == g.notify_on_success
    &&& r.gotify_notify_on_error == g.notify_on_error
    &&& r.gotify_notify_on_every_error == g.notify_on_every_error
    &&& r.gotify_notify_after_attempts == g.notify_after_attempts
    &&& r.web_enabled == c.web.enabled
    &&& r.web_bind@ == c.web.bind@
}

fn copy_text(s: &String) -> (r: String)
    ensures
        r@ == s@,
{
    string_of(&chars_of(s.as_str()))
}

/// The values that `/api/config` shows of a configuration.
pub fn api_config(c: &Config) -> (r: ApiConfig)
    ensures
        api_config_shows(r, *c),
{
    let g = &c.notifications.gotify;
    ApiConfig {
        watch_directory: copy_text(&c.watch.directory),
        watch_directories: c.watch.resolved_directories(),
        stable_after: c.watch.stable_after,
        allow_root_archives: c.watch.allow_root_archives,
        delete_archives: c.extract.delete_archives,
        dry_run: c.extract.dry_run,
        keep_failed: c.extract.keep_failed,
        password_file_configured: !is_blank(c.extract.password_file.as_str()),
        output_directory: copy_text(&c.output.directory),
        history_directory: copy_text(&c.history.directory),
        base_delay: c.retry.base_delay,
        max_delay: c.retry.max_delay,
        scan_existing: c.startup.scan_existing,
        gotify_enabled: g.enabled,
        gotify_url_configured: !is_blank(g.url.as_str()),
        gotify_token_configured: !is_blank(g.token.as_str()),
        gotify_priority_success: g.priority_success,
        gotify_priority_error: g.priority_error,
        gotify_notify_on_success: g.notify_on_success,
        gotify_notify_on_error: g.notify_on_error,
        gotify_notify_on_every_error: g.notify_on_every_error,
        gotify_notify_after_attempts: g.notify_after_attempts,
        web_enabled: c.web.enabled,
        web_bind: copy_text(&c.web.bind),
    }
}

/// `/api/config` shows no secret: what it shows of a configuration is also
/// exactly what it shows of any configuration that differs only in the
/// Gotify URL and token (not in whether they are set) and in the ntfy
/// server, topic and token.
pub proof fn law_api_config_hides_secrets(r: ApiConfig, a: Config, b: Config)
    requires
        same_but_secrets(a, b),
        api_config_shows(r, a),
    ensures
        api_config_shows(r, b),
{
}

} // verus!
