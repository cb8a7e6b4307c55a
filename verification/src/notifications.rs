//! Push notifications through ntfy: which events are announced, and the
//! request that announces them. The request is sent by the caller.
use crate::config::{NotificationConfig, NtfyConfig};
use crate::text::{
    chars_of, dec, extend_chars, extend_str, push_dec, slice_chars, string_of, trim, trim_str,
};
use vstd::prelude::*;

verus! {

#[derive(Clone, Copy, PartialEq, Eq, Structural, Debug)]
pub enum NotificationEvent {
    WorkerStarted,
    ProcessingStarted,
    ProcessingSucceeded,
    ProcessingFailed,
    Test,
}

pub open spec fn event_title(e: NotificationEvent) -> Seq<char> {
    match e {
        NotificationEvent::WorkerStarted => "XDCC Extractor: Worker gestartet"@,
        NotificationEvent::ProcessingStarted => "XDCC Extractor: Verarbeitung gestartet"@,
        NotificationEvent::ProcessingSucceeded => "XDCC Extractor: Verarbeitung erfolgreich"@,
        NotificationEvent::ProcessingFailed => "XDCC Extractor: Verarbeitung fehlgeschlagen"@,
        NotificationEvent::Test => "XDCC Extractor: Testnachricht"@,
    }
}

pub open spec fn event_tags(e: NotificationEvent) -> Seq<Seq<char>> {
    match e {
        NotificationEvent::WorkerStarted => seq!["rocket"@, "gear"@],
        NotificationEvent::ProcessingStarted => seq!["package"@, "hourglass_flowing_sand"@],
        NotificationEvent::ProcessingSucceeded => seq!["white_check_mark"@, "package"@],
        NotificationEvent::ProcessingFailed => seq!["warning"@, "package"@],
        NotificationEvent::Test => seq!["white_check_mark"@, "test_tube"@],
    }
}

impl NotificationEvent {
    pub fn title(self) -> (r: &'static str)
        ensures
            r@ == event_title(self),
    {
        match self {
            NotificationEvent::WorkerStarted => "XDCC Extractor: Worker gestartet",
            NotificationEvent::ProcessingStarted => "XDCC Extractor: Verarbeitung gestartet",
            NotificationEvent::ProcessingSucceeded => "XDCC Extractor: Verarbeitung erfolgreich",
            NotificationEvent::ProcessingFailed => "XDCC Extractor: Verarbeitung fehlgeschlagen",
            NotificationEvent::Test => "XDCC Extractor: Testnachricht",
        }
    }

    pub fn tags(self) -> (r: Vec<String>)
        ensures
            r@.map_values(|s: String| s@) == event_tags(self),
    {
        let (a, b) = match self {
            NotificationEvent::WorkerStarted => ("rocket", "gear"),
            NotificationEvent::ProcessingStarted => ("package", "hourglass_flowing_sand"),
            NotificationEvent::ProcessingSucceeded => ("white_check_mark", "package"),
            NotificationEvent::ProcessingFailed => ("warning", "package"),
            NotificationEvent::Test => ("white_check_mark", "test_tube"),
        };
        let mut r: Vec<String> = Vec::new();
        r.push(crate::text::copy_str(a));
        r.push(crate::text::copy_str(b));
        assert(r@.map_values(|s: String| s@) =~= seq![a@, b@]);
        r
    }
}

/// The JSON body of an ntfy message, as plain values.
pub struct NtfyPayload {
    pub topic: String,
    pub title: String,
    pub message: String,
    pub priority: u8,
    pub tags: Vec<String>,
}

/// A message to post to the ntfy server.
pub struct NtfyRequest {
    /// The URL `{server}/{topic}`: the server without trailing slashes, the
    /// topic trimmed.
    pub endpoint: String,
    /// The value of the `Authorization` header, when a token is set.
    pub authorization: Option<String>,
    pub payload: NtfyPayload,
}

/// Why a notification cannot be sent.
#[derive(Debug)]
pub enum NotifyError {
    Disabled,
    UnsupportedProvider(String),
    ServerEmpty,
    TopicEmpty,
}

pub enum NotifyFault {
    Disabled,
    UnsupportedProvider(Seq<char>),
    ServerEmpty,
    TopicEmpty,
}

impl NotifyError {
    pub open spec fn fault(&self) -> NotifyFault {
        match self {
            NotifyError::Disabled => NotifyFault::Disabled,
            NotifyError::UnsupportedProvider(p) => NotifyFault::UnsupportedProvider(p@),
            NotifyError::ServerEmpty => NotifyFault::ServerEmpty,
            NotifyError::TopicEmpty => NotifyFault::TopicEmpty,
        }
    }

    pub fn message(&self) -> (r: String)
        ensures
            r@ == notify_error_message(self.fault()),
    {
        let mut out: Vec<char> = Vec::new();
        match self {
            NotifyError::Disabled => extend_str(&mut out, "Benachrichtigungen sind deaktiviert"),
            NotifyError::UnsupportedProvider(p) => {
                extend_str(&mut out, "Nicht unterstützter Benachrichtigungsanbieter: ");
                extend_str(&mut out, p.as_str());
            },
            NotifyError::ServerEmpty => extend_str(
                &mut out,
                "ntfy ist aktiviert, aber server ist leer",
            ),
            NotifyError::TopicEmpty => extend_str(&mut out, "ntfy ist aktiviert, aber topic ist leer"),
        }
        string_of(&out)
    }
}

pub open spec fn notify_error_message(f: NotifyFault) -> Seq<char> {
    match f {
        NotifyFault::Disabled => "Benachrichtigungen sind deaktiviert"@,
        NotifyFault::UnsupportedProvider(p) => "Nicht unterstützter Benachrichtigungsanbieter: "@ + p,
        NotifyFault::ServerEmpty => "ntfy ist aktiviert, aber server ist leer"@,
        NotifyFault::TopicEmpty => "ntfy ist aktiviert, aber topic ist leer"@,
    }
}

/// Server and topic must be given before a message can be sent.
pub open spec fn runtime_fault(ntfy: NtfyConfig) -> Option<NotifyFault> {
    if trim(ntfy.server@).len() == 0 {
        Some(NotifyFault::ServerEmpty)
    } else if trim(ntfy.topic@).len() == 0 {
        Some(NotifyFault::TopicEmpty)
    } else {
        None
    }
}

pub fn validate_runtime_config(ntfy: &NtfyConfig) -> (r: Result<(), NotifyError>)
    ensures
        match r {
            Ok(()) => runtime_fault(*ntfy) is None,
            Err(e) => runtime_fault(*ntfy) == Some(e.fault()),
        },
{
    if crate::text::is_blank(ntfy.server.as_str()) {
        return Err(NotifyError::ServerEmpty);
    }
    if crate::text::is_blank(ntfy.topic.as_str()) {
        return Err(NotifyError::TopicEmpty);
    }
    Ok(())
}

/// At most `max` characters; a longer text is cut and marked.
pub open spec fn shortened(input: Seq<char>, max: nat) -> Seq<char> {
    if input.len() <= max {
        input
    } else {
        input.take(max as int) + "\n... gekürzt ..."@
    }
}

pub fn shorten(input: &str, max_chars: usize) -> (r: String)
    ensures
        r@ == shortened(input@, max_chars as nat),
{
    let v = chars_of(input);
    if v.len() <= max_chars {
        return string_of(&v);
    }
    let mut out = slice_chars(&v, 0, max_chars);
    extend_str(&mut out, "\n... gekürzt ...");
    assert(v@.subrange(0, max_chars as int) =~= v@.take(max_chars as int));
    string_of(&out)
}

/// The text without trailing `/` (`str::trim_end_matches('/')`).
pub open spec fn without_trailing_slashes(s: Seq<char>) -> Seq<char>
    decreases s.len(),
{
    if s.len() > 0 && s.last() == '/' {
        without_trailing_slashes(s.drop_last())
    } else {
        s
    }
}

fn strip_trailing_slashes(s: &str) -> (r: String)
    ensures
        r@ == without_trailing_slashes(s@),
{
    let v = chars_of(s);
    let mut end = v.len();
    assert(v@.take(end as int) =~= v@);
    while end > 0 && v[end - 1] == '/'
        invariant
            end <= v@.len(),
            without_trailing_slashes(v@) == without_trailing_slashes(v@.take(end as int)),
        decreases end,
    {
        assert(v@.take(end as int).drop_last() =~= v@.take(end - 1));
        end = end - 1;
    }
    let r = slice_chars(&v, 0, end);
    assert(r@ =~= v@.take(end as int));
    string_of(&r)
}

/// The payload of a message.
pub open spec fn payload_matches(
    p: NtfyPayload,
    ntfy: NtfyConfig,
    event: NotificationEvent,
    message: Seq<char>,
    priority: u8,
) -> bool {
    &&& p.topic@ == trim(ntfy.topic@)
    &&& p.title@ == event_title(event)
    &&& p.message@ == message
    &&& p.priority == priority
    &&& p.tags@.map_values(|s: String| s@) == event_tags(event)
}

pub fn build_payload(ntfy: &NtfyConfig, event: NotificationEvent, message: &str, priority: u8) -> (r: NtfyPayload)
    ensures
        payload_matches(r, *ntfy, event, message@, priority),
{
    let topic = trim_str(ntfy.topic.as_str());
    NtfyPayload {
        topic: string_of(&topic),
        title: crate::text::copy_str(event.title()),
        message: crate::text::copy_str(message),
        priority,
        tags: event.tags(),
    }
}

/// The request for a message: posted to `{server}/{topic}` (the server
/// without trailing slashes, the topic trimmed), with a bearer token when
/// one is set; title, priority and tags travel as headers and the message
/// as the body.
pub open spec fn request_matches(
    r: NtfyRequest,
    ntfy: NtfyConfig,
    event: NotificationEvent,
    message: Seq<char>,
    priority: u8,
) -> bool {
    &&& r.endpoint@ == without_trailing_slashes(ntfy.server@) + "/"@ + trim(ntfy.topic@)
    &&& if trim(ntfy.token@).len() == 0 {
        r.authorization is None
    } else {
        r.authorization is Some && r.authorization.unwrap()@ == "Bearer "@ + trim(ntfy.token@)
    }
    &&& payload_matches(r.payload, ntfy, event, message, priority)
}

/// A notification that is due: the request, or why it cannot be sent.
pub open spec fn outcome_matches(
    r: Result<NtfyRequest, NotifyError>,
    config: NotificationConfig,
    event: NotificationEvent,
    message: Seq<char>,
    priority: u8,
) -> bool {
    let provider = trim(config.provider@);
    match r {
        Ok(req) => provider == "ntfy"@ && runtime_fault(config.ntfy) is None && request_matches(
            req,
            config.ntfy,
            event,
            message,
            priority,
        ),
        Err(e) => if provider != "ntfy"@ {
            e.fault() == NotifyFault::UnsupportedProvider(provider)
        } else {
            runtime_fault(config.ntfy) == Some(e.fault())
        },
    }
}

/// The notifications of the worker, with their configuration.
pub struct Notifications {
    config: NotificationConfig,
}

impl Notifications {
    pub fn new(config: NotificationConfig) -> (n: Notifications)
        ensures
            n.config() == config,
    {
        Notifications { config }
    }

    pub closed spec fn config(&self) -> NotificationConfig {
        self.config
    }

    pub fn enabled(&self) -> (r: bool)
        ensures
            r == self.config().enabled,
    {
        self.config.enabled
    }

    /// The configured provider, trimmed.
    pub fn provider(&self) -> (r: String)
        ensures
            r@ == trim(self.config().provider@),
    {
        let p = trim_str(self.config.provider.as_str());
        string_of(&p)
    }

    /// The request for a message, or why it cannot be sent.
    fn ntfy_request(&self, event: NotificationEvent, message: &str, priority: u8) -> (r: Result<
        NtfyRequest,
        NotifyError,
    >)
        ensures
            outcome_matches(r, self.config(), event, message@, priority),
    {
        let provider = self.provider();
        let pv = chars_of(provider.as_str());
        let name = chars_of("ntfy");
        if !crate::text::chars_eq(&pv, &name) {
            return Err(NotifyError::UnsupportedProvider(provider));
        }
        let ntfy = &self.config.ntfy;
        match validate_runtime_config(ntfy) {
            Err(e) => {
                return Err(e);
            },
            Ok(()) => {},
        }
        let server = strip_trailing_slashes(ntfy.server.as_str());
        let mut url = chars_of(server.as_str());
        extend_str(&mut url, "/");
        let topic = trim_str(ntfy.topic.as_str());
        extend_chars(&mut url, &topic);
        let endpoint = string_of(&url);
        let token = trim_str(ntfy.token.as_str());
        let authorization = if token.len() == 0 {
            None
        } else {
            let mut h: Vec<char> = Vec::new();
            extend_str(&mut h, "Bearer ");
            extend_chars(&mut h, &token);
            Some(string_of(&h))
        };
        let payload = build_payload(ntfy, event, message, priority);
        Ok(NtfyRequest { endpoint, authorization, payload })
    }

    /// The start of the worker is announced when notifications and that
    /// announcement are enabled.
    pub fn send_worker_started(&self) -> (r: Option<Result<NtfyRequest, NotifyError>>)
        ensures
            match r {
                None => !(self.config().enabled && self.config().ntfy.notify_on_worker_start),
                Some(o) => self.config().enabled && self.config().ntfy.notify_on_worker_start
                    && outcome_matches(
                    o,
                    self.config(),
                    NotificationEvent::WorkerStarted,
                    worker_started_text(),
                    self.config().ntfy.priority_success,
                ),
            },
    {
        if !self.enabled() || !self.config.ntfy.notify_on_worker_start {
            return None;
        }
        Some(
            self.ntfy_request(
                NotificationEvent::WorkerStarted,
                "Der XDCC-Extractor-Worker wurde gestartet und überwacht die konfigurierten Verzeichnisse.",
                self.config.ntfy.priority_success,
            ),
        )
    }

    /// The start of processing a release is announced when enabled.
    pub fn send_processing_started(&self, release: &str) -> (r: Option<Result<NtfyRequest, NotifyError>>)
        ensures
            match r {
                None => !(self.config().enabled && self.config().ntfy.notify_on_processing_start),
                Some(o) => self.config().enabled && self.config().ntfy.notify_on_processing_start
                    && outcome_matches(
                    o,
                    self.config(),
                    NotificationEvent::ProcessingStarted,
                    "Verarbeitung gestartet:\n"@ + release@,
                    self.config().ntfy.priority_success,
                ),
            },
    {
        if !self.enabled() || !self.config.ntfy.notify_on_processing_start {
            return None;
        }
        let mut m: Vec<char> = Vec::new();
        extend_str(&mut m, "Verarbeitung gestartet:\n");
        extend_str(&mut m, release);
        let message = string_of(&m);
        Some(
            self.ntfy_request(
                NotificationEvent::ProcessingStarted,
                message.as_str(),
                self.config.ntfy.priority_success,
            ),
        )
    }

    /// A processed release is announced when enabled.
    pub fn send_success(&self, release: &str) -> (r: Option<Result<NtfyRequest, NotifyError>>)
        ensures
            match r {
                None => !(self.config().enabled && self.config().ntfy.notify_on_success),
                Some(o) => self.config().enabled && self.config().ntfy.notify_on_success
                    && outcome_matches(
                    o,
                    self.config(),
                    NotificationEvent::ProcessingSucceeded,
                    "Release erfolgreich verarbeitet:\n"@ + release@,
                    self.config().ntfy.priority_success,
                ),
            },
    {
        if !self.enabled() || !self.config.ntfy.notify_on_success {
            return None;
        }
        let mut m: Vec<char> = Vec::new();
        extend_str(&mut m, "Release erfolgreich verarbeitet:\n");
        extend_str(&mut m, release);
        let message = string_of(&m);
        Some(
            self.ntfy_request(
                NotificationEvent::ProcessingSucceeded,
                message.as_str(),
                self.config.ntfy.priority_success,
            ),
        )
    }

    /// A failure is announced when enabled; unless every failure is to be
    /// announced, only the attempt that reaches `notify_after_attempts`.
    pub fn send_failure(&self, release: &str, attempts: u64, error: &str) -> (r: Option<
        Result<NtfyRequest, NotifyError>,
    >)
        ensures
            match r {
                None => !failure_due(self.config(), attempts),
                Some(o) => failure_due(self.config(), attempts) && outcome_matches(
                    o,
                    self.config(),
                    NotificationEvent::ProcessingFailed,
                    failure_text(release@, attempts, error@),
                    self.config().ntfy.priority_error,
                ),
            },
    {
        let ntfy = &self.config.ntfy;
        if !self.enabled() || !ntfy.notify_on_error {
            return None;
        }
        if !ntfy.notify_on_every_error {
            if attempts < ntfy.notify_after_attempts {
                return None;
            }
            if attempts > ntfy.notify_after_attempts {
                return None;
            }
        }
        let mut m: Vec<char> = Vec::new();
        extend_str(&mut m, "Release fehlgeschlagen:\n");
        extend_str(&mut m, release);
        extend_str(&mut m, "\n\nFehlversuche: ");
        push_dec(&mut m, attempts);
        extend_str(&mut m, "\n\nFehler:\n");
        let short = shorten(error, 1200);
        extend_str(&mut m, short.as_str());
        let message = string_of(&m);
        Some(self.ntfy_request(NotificationEvent::ProcessingFailed, message.as_str(), ntfy.priority_error))
    }

    /// A test message, sent on request; refused when notifications are off.
    pub fn send_test(&self) -> (r: Result<NtfyRequest, NotifyError>)
        ensures
            !self.config().enabled ==> r matches Err(NotifyError::Disabled),
            self.config().enabled ==> outcome_matches(
                r,
                self.config(),
                NotificationEvent::Test,
                "Die ntfy-Konfiguration des XDCC Extractors funktioniert."@,
                self.config().ntfy.priority_success,
            ),
    {
        if !self.enabled() {
            return Err(NotifyError::Disabled);
        }
        self.ntfy_request(
            NotificationEvent::Test,
            "Die ntfy-Konfiguration des XDCC Extractors funktioniert.",
            self.config.ntfy.priority_success,
        )
    }
}

pub open spec fn worker_started_text() -> Seq<char> {
    "Der XDCC-Extractor-Worker wurde gestartet und überwacht die konfigurierten Verzeichnisse."@
}

/// Whether a failure after `attempts` attempts is announced.
pub open spec fn failure_due(config: NotificationConfig, attempts: u64) -> bool {
    config.enabled && config.ntfy.notify_on_error && (config.ntfy.notify_on_every_error
        || attempts == config.ntfy.notify_after_attempts)
}

/// The text of a failure message.
pub open spec fn failure_text(release: Seq<char>, attempts: u64, error: Seq<char>) -> Seq<char> {
    "Release fehlgeschlagen:\n"@ + release + "\n\nFehlversuche: "@ + dec(attempts as nat)
        + "\n\nFehler:\n"@ + shortened(error, 1200)
}

/// A failure that keeps recurring is announced once, at the configured
/// attempt, unless every failure is to be announced.
pub proof fn law_failure_announced_once(config: NotificationConfig, a: u64, b: u64)
    requires
        !config.ntfy.notify_on_every_error,
        failure_due(config, a),
        failure_due(config, b),
    ensures
        a == b,
{
}

} // verus!
