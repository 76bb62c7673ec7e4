//! Notification configuration and dispatch planning.
//!
//! The service decides, from its configuration, whether a notification is
//! dispatched at all and what exactly is handed to the platform backend:
//! title, body, an optional icon, an optional sound request and a timeout.
//! The backend itself (a desktop notification daemon, a toast API, or an
//! AppleScript call) is outside this library; it is reached through the
//! [`NotificationBackend`] trait, which every backend implements and which
//! records each delivery attempt, so that the dispatch decisions here can be
//! stated and proved.

use vstd::prelude::*;
use vstd::string::{StrSliceExecFns, StringExecFns};

verus! {

/// The five-boolean record controlling whether and how notifications are
/// shown. All fields default to `true` and are independent of one another.
#[derive(Clone, Copy, PartialEq, Eq, Structural, Debug)]
pub struct NotificationSettings {
    pub enabled: bool,
    pub show_message_notifications: bool,
    pub show_call_notifications: bool,
    pub sound_enabled: bool,
    pub show_sender: bool,
}

impl NotificationSettings {
    /// The default configuration: everything switched on.
    pub open spec fn spec_default() -> NotificationSettings {
        NotificationSettings {
            enabled: true,
            show_message_notifications: true,
            show_call_notifications: true,
            sound_enabled: true,
            show_sender: true,
        }
    }
}

impl Default for NotificationSettings {
    fn default() -> (s: Self)
        ensures
            s == NotificationSettings::spec_default(),
    {
        NotificationSettings {
            enabled: true,
            show_message_notifications: true,
            show_call_notifications: true,
            sound_enabled: true,
            show_sender: true,
        }
    }
}

/// Why a notification could not be delivered.
#[derive(Debug)]
pub enum NotificationError {
    SystemNotSupported,
    PermissionDenied,
    SendFailed(String),
}

impl NotificationError {
    /// What [`NotificationError::message`] returns for each variant.
    pub open spec fn spec_message(self) -> Seq<char> {
        match self {
            NotificationError::SystemNotSupported => "Notification system not supported"@,
            NotificationError::PermissionDenied => "Notification permission denied"@,
            NotificationError::SendFailed(msg) => "Failed to send notification: "@ + msg@,
        }
    }

    /// A human-readable description of the failure.
    pub fn message(&self) -> (r: String)
        ensures
            r@ == self.spec_message(),
    {
        match self {
            NotificationError::SystemNotSupported => "Notification system not supported".to_owned(),
            NotificationError::PermissionDenied => "Notification permission denied".to_owned(),
            NotificationError::SendFailed(msg) => {
                "Failed to send notification: ".to_owned().concat(msg.as_str())
            },
        }
    }
}

/// Everything a platform backend is handed for one notification: the
/// application name, the texts, the optional icon, the optional sound to
/// play, and how long the backend may linger before giving up.
pub struct BackendRequest {
    pub app_name: String,
    pub title: String,
    pub body: String,
    pub icon: Option<String>,
    pub sound: Option<String>,
    pub timeout_ms: u32,
}

/// A platform notification delivery mechanism. Implementations outside this
/// library perform the actual operating-system call; the sequence of
/// delivery attempts and their verdicts are tracked so that contracts can
/// state exactly when a backend is invoked and what its answer was.
pub trait NotificationBackend {
    /// Every request this backend has been asked to deliver, oldest first.
    /// Backends outside this library leave it at the default; nothing is
    /// proved about them.
    open spec fn deliveries(&self) -> Seq<BackendRequest> {
        Seq::empty()
    }

    /// The backend's answer to each delivery attempt, in the same order.
    open spec fn verdicts(&self) -> Seq<Result<(), NotificationError>> {
        Seq::empty()
    }

    /// Attempt to deliver one notification. The attempt and its verdict are
    /// recorded whether or not it succeeds.
    fn deliver(&mut self, req: BackendRequest) -> (r: Result<(), NotificationError>)
        ensures
            final(self).deliveries() == old(self).deliveries().push(req),
            final(self).verdicts() == old(self).verdicts().push(r),
    ;
}

/// A backend that delivers nothing and remembers every request: the test
/// double for checking dispatch decisions end to end.
pub struct RecordingBackend {
    pub delivered: Vec<BackendRequest>,
}

impl RecordingBackend {
    pub fn new() -> (b: Self)
        ensures
            b.deliveries() == Seq::<BackendRequest>::empty(),
    {
        RecordingBackend { delivered: Vec::new() }
    }

    /// How many requests reached this backend.
    pub fn count(&self) -> (n: usize)
        ensures
            n == self.deliveries().len(),
    {
        self.delivered.len()
    }
}

impl NotificationBackend for RecordingBackend {
    open spec fn deliveries(&self) -> Seq<BackendRequest> {
        self.delivered@
    }

    /// This backend always answers success.
    open spec fn verdicts(&self) -> Seq<Result<(), NotificationError>> {
        Seq::new(self.delivered@.len(), |i: int| Ok(()))
    }

    fn deliver(&mut self, req: BackendRequest) -> (r: Result<(), NotificationError>)
        ensures
            r is Ok,
    {
        self.delivered.push(req);
        assert(self.verdicts() =~= old(self).verdicts().push(Ok(())));
        Ok(())
    }
}

/// The backend used on platforms with no supported notification mechanism:
/// it records the attempt and fails with `SystemNotSupported`.
pub struct UnsupportedBackend {
    pub attempted: Vec<BackendRequest>,
}

impl UnsupportedBackend {
    pub fn new() -> (b: Self)
        ensures
            b.deliveries() == Seq::<BackendRequest>::empty(),
    {
        UnsupportedBackend { attempted: Vec::new() }
    }
}

impl NotificationBackend for UnsupportedBackend {
    open spec fn deliveries(&self) -> Seq<BackendRequest> {
        self.attempted@
    }

    /// This backend always answers `SystemNotSupported`.
    open spec fn verdicts(&self) -> Seq<Result<(), NotificationError>> {
        Seq::new(self.attempted@.len(), |i: int| Err(NotificationError::SystemNotSupported))
    }

    fn deliver(&mut self, req: BackendRequest) -> (r: Result<(), NotificationError>)
        ensures
            r matches Err(e) && e is SystemNotSupported,
    {
        self.attempted.push(req);
        assert(self.verdicts() =~= old(self).verdicts().push(
            Err(NotificationError::SystemNotSupported),
        ));
        Err(NotificationError::SystemNotSupported)
    }
}

/// A character as it stands inside an AppleScript string literal: quotes
/// are escaped, everything else is itself.
pub open spec fn as_esc_char(c: char) -> Seq<char> {
    if c == '"' {
        seq!['\\', '"']
    } else {
        seq![c]
    }
}

/// AppleScript string escaping of a whole text.
pub open spec fn as_escape(s: Seq<char>) -> Seq<char>
    decreases s.len(),
{
    if s.len() == 0 {
        Seq::empty()
    } else {
        as_esc_char(s[0]) + as_escape(s.subrange(1, s.len() as int))
    }
}

proof fn lemma_as_escape_push(s: Seq<char>, c: char)
    ensures
        as_escape(s.push(c)) == as_escape(s) + as_esc_char(c),
    decreases s.len(),
{
    if s.len() == 0 {
        let t = s.push(c);
        assert(t.len() == 1 && t[0] == c);
        assert(t.subrange(1, 1) =~= Seq::<char>::empty());
        assert(as_escape(Seq::<char>::empty()) == Seq::<char>::empty());
        assert(as_escape(t) == as_esc_char(t[0]) + as_escape(t.subrange(1, 1)));
        assert(as_escape(t) =~= as_esc_char(c));
        assert(as_escape(s) + as_esc_char(c) =~= as_esc_char(c));
    } else {
        let t = s.push(c);
        let s2 = s.subrange(1, s.len() as int);
        assert(t[0] == s[0]);
        assert(t.subrange(1, t.len() as int) =~= s2.push(c));
        lemma_as_escape_push(s2, c);
        assert(as_esc_char(s[0]) + (as_escape(s2) + as_esc_char(c)) =~= (as_esc_char(s[0])
            + as_escape(s2)) + as_esc_char(c));
    }
}

/// Appends `s` as an AppleScript string literal, quotes escaped.
#[verifier::loop_isolation(false)]
fn push_as_quoted(out: &mut Vec<char>, s: &str)
    ensures
        final(out)@ == old(out)@ + seq!['"'] + as_escape(s@) + seq!['"'],
{
    let n = s.unicode_len();
    out.push('"');
    assert(as_escape(s@.subrange(0, 0)) =~= Seq::<char>::empty());
    assert(out@ =~= old(out)@ + seq!['"'] + as_escape(s@.subrange(0, 0)));
    let mut i: usize = 0;
    while i < n
        invariant
            i <= n,
            out@ == old(out)@ + seq!['"'] + as_escape(s@.subrange(0, i as int)),
        decreases n - i,
    {
        let c = s.get_char(i);
        proof {
            lemma_as_escape_push(s@.subrange(0, i as int), c);
            assert(s@.subrange(0, i as int).push(c) =~= s@.subrange(0, i + 1 as int));
        }
        if c == '"' {
            out.push('\\');
            out.push(c);
        } else {
            out.push(c);
        }
        assert(out@ =~= old(out)@ + seq!['"'] + as_escape(s@.subrange(0, i + 1 as int)));
        i = i + 1;
    }
    out.push('"');
    assert(s@.subrange(0, n as int) =~= s@);
    assert(out@ =~= old(out)@ + seq!['"'] + as_escape(s@) + seq!['"']);
}

/// The AppleScript line that shows one notification.
pub open spec fn spec_notification_script(title: Seq<char>, body: Seq<char>) -> Seq<char> {
    "display notification "@ + seq!['"'] + as_escape(body) + seq!['"'] + " with title "@
        + seq!['"'] + as_escape(title) + seq!['"']
}

/// Builds the AppleScript that shows one notification, with the body and
/// title quoted and their quotes escaped.
pub fn notification_script(title: &str, body: &str) -> (r: String)
    ensures
        r@ == spec_notification_script(title@, body@),
{
    let mut out: Vec<char> = Vec::new();
    let mut head = crate::text::str_to_chars("display notification ");
    out.append(&mut head);
    push_as_quoted(&mut out, body);
    assert(out@ =~= "display notification "@ + seq!['"'] + as_escape(body@) + seq!['"']);
    let mut mid = crate::text::str_to_chars(" with title ");
    out.append(&mut mid);
    push_as_quoted(&mut out, title);
    assert(out@ =~= spec_notification_script(title@, body@));
    crate::text::chars_to_string(&out)
}

/// Routes notifications to a backend according to the active configuration.
pub struct NotificationService {
    pub settings: NotificationSettings,
}

/// What [`NotificationService::send_notification`] hands to the backend when
/// the configuration lets a notification through: the shell's application
/// name, the given texts, the given icon, a sound exactly when sound is
/// enabled, and a five-second timeout.
pub open spec fn sent_request(
    settings: NotificationSettings,
    title: Seq<char>,
    body: Seq<char>,
    icon: Option<Seq<char>>,
    req: BackendRequest,
) -> bool {
    &&& req.app_name@ == "WhatsApp-QT"@
    &&& req.title@ == title
    &&& req.body@ == body
    &&& (match (icon, req.icon) {
        (Some(p), Some(q)) => p == q@,
        (None, None) => true,
        _ => false,
    })
    &&& (settings.sound_enabled ==> (req.sound matches Some(s) && s@ == "message-new-instant"@))
    &&& (!settings.sound_enabled ==> req.sound is None)
    &&& req.timeout_ms == 5000
}

impl NotificationService {
    pub fn new() -> (s: Self)
        ensures
            s.settings == NotificationSettings::spec_default(),
    {
        NotificationService { settings: NotificationSettings::default() }
    }

    /// Replaces the active configuration; takes effect for subsequent sends
    /// only.
    pub fn update_settings(&mut self, settings: NotificationSettings)
        ensures
            final(self).settings == settings,
    {
        self.settings = settings;
    }

    /// Sends one notification through the given backend. With notifications
    /// disabled this succeeds immediately and the backend is never invoked;
    /// otherwise exactly one request, shaped by the configuration, reaches
    /// the backend, and its verdict is returned unchanged.
    pub fn send_notification<B: NotificationBackend>(
        &self,
        backend: &mut B,
        title: &str,
        message: &str,
        icon_path: Option<&str>,
    ) -> (r: Result<(), NotificationError>)
        ensures
            !self.settings.enabled ==> r is Ok && final(backend).deliveries() == old(
                backend,
            ).deliveries() && final(backend).verdicts() == old(backend).verdicts(),
            self.settings.enabled ==> {
                &&& final(backend).deliveries().len() == old(backend).deliveries().len() + 1
                &&& final(backend).deliveries().subrange(
                    0,
                    old(backend).deliveries().len() as int,
                ) == old(backend).deliveries()
                &&& sent_request(
                    self.settings,
                    title@,
                    message@,
                    match icon_path {
                        Some(p) => Some(p@),
                        None => None,
                    },
                    final(backend).deliveries().last(),
                )
                &&& final(backend).verdicts() == old(backend).verdicts().push(r)
            },
    {
        if !self.settings.enabled {
            return Ok(());
        }
        let req = BackendRequest {
            app_name: "WhatsApp-QT".to_owned(),
            title: title.to_owned(),
            body: message.to_owned(),
            icon: match icon_path {
                Some(p) => Some(p.to_owned()),
                None => None,
            },
            sound: if self.settings.sound_enabled {
                Some("message-new-instant".to_owned())
            } else {
                None
            },
            timeout_ms: 5000,
        };
        let r = backend.deliver(req);
        assert(backend.deliveries().subrange(0, old(backend).deliveries().len() as int) =~= old(
            backend,
        ).deliveries());
        r
    }

    /// Sends a fixed test notification with the given icon, so that a user
    /// can verify delivery end to end from a settings panel.
    pub fn test_notification<B: NotificationBackend>(
        &self,
        backend: &mut B,
        icon_path: &str,
    ) -> (r: Result<(), NotificationError>)
        ensures
            !self.settings.enabled ==> r is Ok && final(backend).deliveries() == old(
                backend,
            ).deliveries() && final(backend).verdicts() == old(backend).verdicts(),
            self.settings.enabled ==> {
                &&& final(backend).deliveries().len() == old(backend).deliveries().len() + 1
                &&& final(backend).deliveries().subrange(
                    0,
                    old(backend).deliveries().len() as int,
                ) == old(backend).deliveries()
                &&& sent_request(
                    self.settings,
                    "WhatsApp-QT"@,
                    "Test Message from WhatsApp-QT"@,
                    Some(icon_path@),
                    final(backend).deliveries().last(),
                )
                &&& final(backend).verdicts() == old(backend).verdicts().push(r)
            },
    {
        self.send_notification(
            backend,
            "WhatsApp-QT",
            "Test Message from WhatsApp-QT",
            Some(icon_path),
        )
    }
}

} // verus!
