//! The UI-facing controller: the in-memory mirror of the persisted settings.
//!
//! Every mutator is a pure state transition returning the observer events it
//! raises, in order; the caller publishes them and then saves a fresh
//! snapshot, so the file on disk is always the last successfully-saved full
//! snapshot of this state.

use vstd::prelude::*;
use vstd::string::StringExecFns;
use crate::codec::tab_views;
use crate::notification::{NotificationService, NotificationSettings};
use crate::settings::{AppSettings, SaveError, SettingsModel, TabInfo};

verus! {

/// An observer notification: a UI-directed signal that a property changed,
/// decoupled from any particular toolkit.
#[derive(Debug)]
pub enum AppEvent {
    CurrentTabChanged,
    ThemeChanged,
    DownloadPathChanged,
    NotificationsEnabledChanged,
    ShowMessageNotificationsChanged,
    ShowCallNotificationsChanged,
    NotificationSoundEnabledChanged,
    ShowSenderChanged,
    ApplyThemeCss(String),
    SaveFailed(String),
    TabAdded(String, String),
    TabRemoved(i32),
    TabRenamed(i32, String),
    SettingsSaved,
}

/// The stylesheet for the dark theme.
pub open spec fn dark_css() -> Seq<char> {
    r#"
    /* Dark theme base styles */
    body, #app, [data-testid="conversation-panel-body"] {
        background-color: #1e1e1e !important;
        color: #ffffff !important;
        font-family: 'Fira Code', 'JetBrains Mono', 'monospace' !important;
    }
"#@
        + r#"
    /* Dark theme chat styles */
    [data-testid="chat-list"] {
        background-color: #2d2d2d !important;
    }
    [data-testid="chat"] {
        background-color: #3d3d3d !important;
        border-bottom: 1px solid #555 !important;
    }
"#@
        + r#"
                /* Additional dark theme styles */
                ._3OtEr, .app, #app, .app-wrapper-web, [data-testid="app-wrapper"] {
                    background-color: #1e1e1e !important;
                }
                ._3j7s9 {
                    background-color: #2d2d2d !important;
                }
                /* WhatsApp specific dark theme */
                [data-testid="chatlist-header"], [data-testid="chat-header"] {
                    background-color: #2d2d2d !important;
                }
            "#@
}

/// The stylesheet for the light theme.
pub open spec fn light_css() -> Seq<char> {
    r#"
    /* Light theme base styles */
    body, #app, [data-testid="conversation-panel-body"] {
        background-color: #ffffff !important;
        color: #000000 !important;
        font-family: 'Fira Code', 'JetBrains Mono', 'monospace' !important;
    }
"#@
        + r#"
    /* Light theme chat styles */
    [data-testid="chat-list"] {
        background-color: #f8f9fa !important;
    }
    [data-testid="chat"] {
        background-color: #ffffff !important;
        border-bottom: 1px solid #e9ecef !important;
    }
"#@
        + r#"
                /* Additional light theme styles */
                ._3OtEr, .app, #app, .app-wrapper-web, [data-testid="app-wrapper"] {
                    background-color: #ffffff !important;
                }
                ._3j7s9 {
                    background-color: #f8f9fa !important;
                }
            "#@
}

/// Each recognized theme has an actual stylesheet: `generate_css` returns a
/// non-empty string exactly for `"dark"` and `"light"`.
pub proof fn lemma_theme_css_nonempty()
    ensures
        dark_css().len() > 0,
        light_css().len() > 0,
{
    broadcast use vstd::string::group_string_axioms;

    reveal_strlit(r#"
    /* Dark theme base styles */
    body, #app, [data-testid="conversation-panel-body"] {
        background-color: #1e1e1e !important;
        color: #ffffff !important;
        font-family: 'Fira Code', 'JetBrains Mono', 'monospace' !important;
    }
"#);
    reveal_strlit(r#"
    /* Light theme base styles */
    body, #app, [data-testid="conversation-panel-body"] {
        background-color: #ffffff !important;
        color: #000000 !important;
        font-family: 'Fira Code', 'JetBrains Mono', 'monospace' !important;
    }
"#);
    assert(r#"
    /* Dark theme base styles */
    body, #app, [data-testid="conversation-panel-body"] {
        background-color: #1e1e1e !important;
        color: #ffffff !important;
        font-family: 'Fira Code', 'JetBrains Mono', 'monospace' !important;
    }
"#@.len() > 0);
    assert(r#"
    /* Light theme base styles */
    body, #app, [data-testid="conversation-panel-body"] {
        background-color: #ffffff !important;
        color: #000000 !important;
        font-family: 'Fira Code', 'JetBrains Mono', 'monospace' !important;
    }
"#@.len() > 0);
}

/// What `generate_css` returns: the fixed stylesheet of a recognized theme,
/// and nothing at all for any other value, `"system"` included.
pub open spec fn spec_generate_css(theme: Seq<char>) -> Seq<char> {
    if theme == "dark"@ {
        dark_css()
    } else if theme == "light"@ {
        light_css()
    } else {
        Seq::empty()
    }
}

/// The platform the shell runs on, detected once at startup by the caller.
#[derive(Clone, Copy, PartialEq, Eq, Structural, Debug)]
pub enum Platform {
    Linux,
    MacOs,
    Windows,
    Other,
}

/// The browser identification presented by the embedded web view.
pub fn get_user_agent(p: Platform) -> (r: &'static str)
    ensures
        (p is Linux || p is Other) ==> r@
            == "Mozilla/5.0 (X11; Linux x86_64; Chromium) AppleWebKit/537.36 (KHTML, like Gecko) Chrome/126.0.4.0 Safari/537.38"@,
        p is MacOs ==> r@
            == "Mozilla/5.0 (Macintosh; Intel Mac OS X 10_15_7) AppleWebKit/605.1.15 (KHTML, like Gecko) Version/18.1.1 Safari/605.1.15"@,
        p is Windows ==> r@
            == "Mozilla/5.0 (Windows NT 10.0; Win64; x64) AppleWebKit/537.36 (KHTML, like Gecko) Chrome/131.0.0.0 Safari/537.36"@,
{
    match p {
        Platform::Linux => "Mozilla/5.0 (X11; Linux x86_64; Chromium) AppleWebKit/537.36 (KHTML, like Gecko) Chrome/126.0.4.0 Safari/537.38",
        Platform::MacOs => "Mozilla/5.0 (Macintosh; Intel Mac OS X 10_15_7) AppleWebKit/605.1.15 (KHTML, like Gecko) Version/18.1.1 Safari/605.1.15",
        Platform::Windows => "Mozilla/5.0 (Windows NT 10.0; Win64; x64) AppleWebKit/537.36 (KHTML, like Gecko) Chrome/131.0.0.0 Safari/537.36",
        Platform::Other => "Mozilla/5.0 (X11; Linux x86_64; Chromium) AppleWebKit/537.36 (KHTML, like Gecko) Chrome/126.0.4.0 Safari/537.38",
    }
}

/// Whether a release tag other than the running version is available.
pub fn update_available(latest_tag: &str, current_version: &str) -> (r: bool)
    ensures
        r == (latest_tag@ != current_version@),
{
    !crate::text::str_eq(latest_tag, current_version)
}

/// The in-memory mirror of the persisted settings, owned by the UI thread.
pub struct AppController {
    pub current_tab: i32,
    pub theme: String,
    pub download_path: String,
    pub css_cache: String,
    pub notifications_enabled: bool,
    pub show_message_notifications: bool,
    pub show_call_notifications: bool,
    pub notification_sound_enabled: bool,
    pub show_sender: bool,
    pub tabs: Vec<TabInfo>,
}

impl Default for AppController {
    /// A fresh controller: system theme, no download path yet, everything
    /// about notifications switched on, no tabs.
    fn default() -> (c: Self)
        ensures
            c.current_tab == 0,
            c.theme@ == "system"@,
            c.download_path@ == Seq::<char>::empty(),
            c.css_cache@ == Seq::<char>::empty(),
            c.spec_notification_settings() == NotificationSettings::spec_default(),
            c.tabs@.len() == 0,
    {
        AppController {
            current_tab: 0,
            theme: "system".to_owned(),
            download_path: String::new(),
            css_cache: String::new(),
            notifications_enabled: true,
            show_message_notifications: true,
            show_call_notifications: true,
            notification_sound_enabled: true,
            show_sender: true,
            tabs: Vec::new(),
        }
    }
}

impl AppController {
    /// The notification configuration the controller's flags describe.
    pub open spec fn spec_notification_settings(self) -> NotificationSettings {
        NotificationSettings {
            enabled: self.notifications_enabled,
            show_message_notifications: self.show_message_notifications,
            show_call_notifications: self.show_call_notifications,
            sound_enabled: self.notification_sound_enabled,
            show_sender: self.show_sender,
        }
    }

    /// The snapshot of this state that a save writes out.
    pub open spec fn spec_snapshot(self) -> SettingsModel {
        SettingsModel {
            theme: self.theme@,
            download_path: self.download_path@,
            current_tab: self.current_tab as int,
            notification_settings: self.spec_notification_settings(),
            tabs: tab_views(self.tabs@),
        }
    }

    /// Derives the stylesheet for a theme name; unrecognized names give an
    /// empty stylesheet.
    pub fn generate_css(&self, theme: &str) -> (r: String)
        ensures
            r@ == spec_generate_css(theme@),
    {
        if crate::text::str_eq(theme, "dark") {
            let mut css = String::new();
            css.append(r#"
    /* Dark theme base styles */
    body, #app, [data-testid="conversation-panel-body"] {
        background-color: #1e1e1e !important;
        color: #ffffff !important;
        font-family: 'Fira Code', 'JetBrains Mono', 'monospace' !important;
    }
"#);
            css.append(r#"
    /* Dark theme chat styles */
    [data-testid="chat-list"] {
        background-color: #2d2d2d !important;
    }
    [data-testid="chat"] {
        background-color: #3d3d3d !important;
        border-bottom: 1px solid #555 !important;
    }
"#);
            css.append(r#"
                /* Additional dark theme styles */
                ._3OtEr, .app, #app, .app-wrapper-web, [data-testid="app-wrapper"] {
                    background-color: #1e1e1e !important;
                }
                ._3j7s9 {
                    background-color: #2d2d2d !important;
                }
                /* WhatsApp specific dark theme */
                [data-testid="chatlist-header"], [data-testid="chat-header"] {
                    background-color: #2d2d2d !important;
                }
            "#);
            css
        } else if crate::text::str_eq(theme, "light") {
            let mut css = String::new();
            css.append(r#"
    /* Light theme base styles */
    body, #app, [data-testid="conversation-panel-body"] {
        background-color: #ffffff !important;
        color: #000000 !important;
        font-family: 'Fira Code', 'JetBrains Mono', 'monospace' !important;
    }
"#);
            css.append(r#"
    /* Light theme chat styles */
    [data-testid="chat-list"] {
        background-color: #f8f9fa !important;
    }
    [data-testid="chat"] {
        background-color: #ffffff !important;
        border-bottom: 1px solid #e9ecef !important;
    }
"#);
            css.append(r#"
                /* Additional light theme styles */
                ._3OtEr, .app, #app, .app-wrapper-web, [data-testid="app-wrapper"] {
                    background-color: #ffffff !important;
                }
                ._3j7s9 {
                    background-color: #f8f9fa !important;
                }
            "#);
            css
        } else {
            String::new()
        }
    }

    /// The stylesheet derived by the last theme change.
    pub fn get_theme_css(&self) -> (r: String)
        ensures
            r@ == self.css_cache@,
    {
        self.css_cache.clone()
    }

    /// Sets the theme, derives its stylesheet, and raises the change and
    /// stylesheet events, in that order. The caller then saves a snapshot.
    pub fn set_theme(&mut self, theme: String) -> (events: Vec<AppEvent>)
        ensures
            final(self).theme == theme,
            final(self).css_cache@ == spec_generate_css(theme@),
            final(self).current_tab == old(self).current_tab,
            final(self).download_path == old(self).download_path,
            final(self).notifications_enabled == old(self).notifications_enabled,
            final(self).show_message_notifications == old(self).show_message_notifications,
            final(self).show_call_notifications == old(self).show_call_notifications,
            final(self).notification_sound_enabled == old(self).notification_sound_enabled,
            final(self).show_sender == old(self).show_sender,
            final(self).tabs == old(self).tabs,
            events@.len() == 2,
            events@[0] is ThemeChanged,
            (events@[1] matches AppEvent::ApplyThemeCss(css) && css@ == spec_generate_css(theme@)),
    {
        let css = self.generate_css(theme.as_str());
        self.theme = theme;
        self.css_cache = css.clone();
        let mut events: Vec<AppEvent> = Vec::new();
        events.push(AppEvent::ThemeChanged);
        events.push(AppEvent::ApplyThemeCss(css));
        events
    }

    /// Sets the download path and raises its change event.
    pub fn set_download_path(&mut self, path: String) -> (events: Vec<AppEvent>)
        ensures
            final(self).download_path == path,
            final(self).current_tab == old(self).current_tab,
            final(self).theme == old(self).theme,
            final(self).css_cache == old(self).css_cache,
            final(self).notifications_enabled == old(self).notifications_enabled,
            final(self).show_message_notifications == old(self).show_message_notifications,
            final(self).show_call_notifications == old(self).show_call_notifications,
            final(self).notification_sound_enabled == old(self).notification_sound_enabled,
            final(self).show_sender == old(self).show_sender,
            final(self).tabs == old(self).tabs,
            events@.len() == 1,
            events@[0] is DownloadPathChanged,
    {
        self.download_path = path;
        let mut events: Vec<AppEvent> = Vec::new();
        events.push(AppEvent::DownloadPathChanged);
        events
    }

    /// Sets the active tab index and raises its change event.
    pub fn set_current_tab(&mut self, index: i32) -> (events: Vec<AppEvent>)
        ensures
            final(self).current_tab == index,
            final(self).theme == old(self).theme,
            final(self).download_path == old(self).download_path,
            final(self).css_cache == old(self).css_cache,
            final(self).notifications_enabled == old(self).notifications_enabled,
            final(self).show_message_notifications == old(self).show_message_notifications,
            final(self).show_call_notifications == old(self).show_call_notifications,
            final(self).notification_sound_enabled == old(self).notification_sound_enabled,
            final(self).show_sender == old(self).show_sender,
            final(self).tabs == old(self).tabs,
            events@.len() == 1,
            events@[0] is CurrentTabChanged,
    {
        self.current_tab = index;
        let mut events: Vec<AppEvent> = Vec::new();
        events.push(AppEvent::CurrentTabChanged);
        events
    }

    /// Appends a tab and raises the added event carrying its name and icon.
    pub fn add_tab(&mut self, name: String, icon: String) -> (events: Vec<AppEvent>)
        ensures
            final(self).tabs@.len() == old(self).tabs@.len() + 1,
            final(self).tabs@.subrange(0, old(self).tabs@.len() as int) == old(self).tabs@,
            final(self).tabs@.last().name == name,
            final(self).tabs@.last().icon == icon,
            final(self).current_tab == old(self).current_tab,
            final(self).theme == old(self).theme,
            final(self).download_path == old(self).download_path,
            final(self).css_cache == old(self).css_cache,
            final(self).notifications_enabled == old(self).notifications_enabled,
            final(self).show_message_notifications == old(self).show_message_notifications,
            final(self).show_call_notifications == old(self).show_call_notifications,
            final(self).notification_sound_enabled == old(self).notification_sound_enabled,
            final(self).show_sender == old(self).show_sender,
            events@.len() == 1,
            (events@[0] matches AppEvent::TabAdded(n, ic) && n@ == name@ && ic@ == icon@),
    {
        let tab = TabInfo { name: name.clone(), icon: icon.clone() };
        self.tabs.push(tab);
        assert(self.tabs@.subrange(0, old(self).tabs@.len() as int) =~= old(self).tabs@);
        let mut events: Vec<AppEvent> = Vec::new();
        events.push(AppEvent::TabAdded(name, icon));
        events
    }

    /// Removes the tab at `index` and raises the removed event; an index out
    /// of range changes nothing and raises nothing.
    pub fn remove_tab(&mut self, index: i32) -> (events: Vec<AppEvent>)
        ensures
            0 <= index < old(self).tabs@.len() ==> {
                &&& final(self).tabs@ == old(self).tabs@.remove(index as int)
                &&& events@.len() == 1
                &&& (events@[0] matches AppEvent::TabRemoved(n) && n == index)
            },
            !(0 <= index < old(self).tabs@.len()) ==> final(self).tabs == old(self).tabs
                && events@.len() == 0,
            final(self).current_tab == old(self).current_tab,
            final(self).theme == old(self).theme,
            final(self).download_path == old(self).download_path,
            final(self).css_cache == old(self).css_cache,
            final(self).notifications_enabled == old(self).notifications_enabled,
            final(self).show_message_notifications == old(self).show_message_notifications,
            final(self).show_call_notifications == old(self).show_call_notifications,
            final(self).notification_sound_enabled == old(self).notification_sound_enabled,
            final(self).show_sender == old(self).show_sender,
    {
        let mut events: Vec<AppEvent> = Vec::new();
        if index >= 0 && (index as usize) < self.tabs.len() {
            self.tabs.remove(index as usize);
            events.push(AppEvent::TabRemoved(index));
        }
        events
    }

    /// Renames the tab at `index`, keeping its icon, and raises the renamed
    /// event; an index out of range changes nothing and raises nothing.
    pub fn rename_tab(&mut self, index: i32, new_name: String) -> (events: Vec<AppEvent>)
        ensures
            0 <= index < old(self).tabs@.len() ==> {
                &&& final(self).tabs@.len() == old(self).tabs@.len()
                &&& final(self).tabs@[index as int].name == new_name
                &&& final(self).tabs@[index as int].icon == old(self).tabs@[index as int].icon
                &&& (forall|k: int|
                    0 <= k < old(self).tabs@.len() && k != index ==> final(self).tabs@[k] == old(
                        self,
                    ).tabs@[k])
                &&& events@.len() == 1
                &&& (events@[0] matches AppEvent::TabRenamed(n, nm) && n == index && nm@
                    == new_name@)
            },
            !(0 <= index < old(self).tabs@.len()) ==> final(self).tabs == old(self).tabs
                && events@.len() == 0,
            final(self).current_tab == old(self).current_tab,
            final(self).theme == old(self).theme,
            final(self).download_path == old(self).download_path,
            final(self).css_cache == old(self).css_cache,
            final(self).notifications_enabled == old(self).notifications_enabled,
            final(self).show_message_notifications == old(self).show_message_notifications,
            final(self).show_call_notifications == old(self).show_call_notifications,
            final(self).notification_sound_enabled == old(self).notification_sound_enabled,
            final(self).show_sender == old(self).show_sender,
    {
        let mut events: Vec<AppEvent> = Vec::new();
        if index >= 0 && (index as usize) < self.tabs.len() {
            let old_tab = self.tabs.remove(index as usize);
            let renamed = TabInfo { name: new_name.clone(), icon: old_tab.icon };
            self.tabs.insert(index as usize, renamed);
            events.push(AppEvent::TabRenamed(index, new_name));
        }
        events
    }

    /// Flips whether notifications are shown at all.
    pub fn set_notifications_enabled(&mut self, enabled: bool) -> (events: Vec<AppEvent>)
        ensures
            final(self).notifications_enabled == enabled,
            final(self).show_message_notifications == old(self).show_message_notifications,
            final(self).show_call_notifications == old(self).show_call_notifications,
            final(self).notification_sound_enabled == old(self).notification_sound_enabled,
            final(self).show_sender == old(self).show_sender,
            final(self).current_tab == old(self).current_tab,
            final(self).theme == old(self).theme,
            final(self).download_path == old(self).download_path,
            final(self).css_cache == old(self).css_cache,
            final(self).tabs == old(self).tabs,
            events@.len() == 1,
            events@[0] is NotificationsEnabledChanged,
    {
        self.notifications_enabled = enabled;
        let mut events: Vec<AppEvent> = Vec::new();
        events.push(AppEvent::NotificationsEnabledChanged);
        events
    }

    /// Flips whether message notifications are shown.
    pub fn set_show_message_notifications(&mut self, enabled: bool) -> (events: Vec<AppEvent>)
        ensures
            final(self).show_message_notifications == enabled,
            final(self).notifications_enabled == old(self).notifications_enabled,
            final(self).show_call_notifications == old(self).show_call_notifications,
            final(self).notification_sound_enabled == old(self).notification_sound_enabled,
            final(self).show_sender == old(self).show_sender,
            final(self).current_tab == old(self).current_tab,
            final(self).theme == old(self).theme,
            final(self).download_path == old(self).download_path,
            final(self).css_cache == old(self).css_cache,
            final(self).tabs == old(self).tabs,
            events@.len() == 1,
            events@[0] is ShowMessageNotificationsChanged,
    {
        self.show_message_notifications = enabled;
        let mut events: Vec<AppEvent> = Vec::new();
        events.push(AppEvent::ShowMessageNotificationsChanged);
        events
    }

    /// Flips whether call notifications are shown.
    pub fn set_show_call_notifications(&mut self, enabled: bool) -> (events: Vec<AppEvent>)
        ensures
            final(self).show_call_notifications == enabled,
            final(self).notifications_enabled == old(self).notifications_enabled,
            final(self).show_message_notifications == old(self).show_message_notifications,
            final(self).notification_sound_enabled == old(self).notification_sound_enabled,
            final(self).show_sender == old(self).show_sender,
            final(self).current_tab == old(self).current_tab,
            final(self).theme == old(self).theme,
            final(self).download_path == old(self).download_path,
            final(self).css_cache == old(self).css_cache,
            final(self).tabs == old(self).tabs,
            events@.len() == 1,
            events@[0] is ShowCallNotificationsChanged,
    {
        self.show_call_notifications = enabled;
        let mut events: Vec<AppEvent> = Vec::new();
        events.push(AppEvent::ShowCallNotificationsChanged);
        events
    }

    /// Flips whether a sound is requested with each notification.
    pub fn set_notification_sound_enabled(&mut self, enabled: bool) -> (events: Vec<AppEvent>)
        ensures
            final(self).notification_sound_enabled == enabled,
            final(self).notifications_enabled == old(self).notifications_enabled,
            final(self).show_message_notifications == old(self).show_message_notifications,
            final(self).show_call_notifications == old(self).show_call_notifications,
            final(self).show_sender == old(self).show_sender,
            final(self).current_tab == old(self).current_tab,
            final(self).theme == old(self).theme,
            final(self).download_path == old(self).download_path,
            final(self).css_cache == old(self).css_cache,
            final(self).tabs == old(self).tabs,
            events@.len() == 1,
            events@[0] is NotificationSoundEnabledChanged,
    {
        self.notification_sound_enabled = enabled;
        let mut events: Vec<AppEvent> = Vec::new();
        events.push(AppEvent::NotificationSoundEnabledChanged);
        events
    }

    /// Flips whether the sender's name is shown in notifications.
    pub fn set_show_sender(&mut self, enabled: bool) -> (events: Vec<AppEvent>)
        ensures
            final(self).show_sender == enabled,
            final(self).notifications_enabled == old(self).notifications_enabled,
            final(self).show_message_notifications == old(self).show_message_notifications,
            final(self).show_call_notifications == old(self).show_call_notifications,
            final(self).notification_sound_enabled == old(self).notification_sound_enabled,
            final(self).current_tab == old(self).current_tab,
            final(self).theme == old(self).theme,
            final(self).download_path == old(self).download_path,
            final(self).css_cache == old(self).css_cache,
            final(self).tabs == old(self).tabs,
            events@.len() == 1,
            events@[0] is ShowSenderChanged,
    {
        self.show_sender = enabled;
        let mut events: Vec<AppEvent> = Vec::new();
        events.push(AppEvent::ShowSenderChanged);
        events
    }

    /// Pushes the controller's current notification flags into the
    /// dispatcher, replacing its configuration wholesale.
    pub fn update_notification_settings(&self, service: &mut NotificationService)
        ensures
            final(service).settings == self.spec_notification_settings(),
    {
        let settings = NotificationSettings {
            enabled: self.notifications_enabled,
            show_message_notifications: self.show_message_notifications,
            show_call_notifications: self.show_call_notifications,
            sound_enabled: self.notification_sound_enabled,
            show_sender: self.show_sender,
        };
        service.update_settings(settings);
    }

    /// Assembles the snapshot of the current state, running the reserved
    /// pre-serialization step on it.
    pub fn snapshot(&self) -> (s: AppSettings)
        ensures
            s@ == self.spec_snapshot(),
    {
        let mut tabs: Vec<TabInfo> = Vec::new();
        let mut i: usize = 0;
        while i < self.tabs.len()
            invariant
                i <= self.tabs@.len(),
                tabs@.len() == i,
                forall|k: int| 0 <= k < i ==> tabs@[k] == self.tabs@[k],
            decreases self.tabs@.len() - i,
        {
            tabs.push(self.tabs[i].clone());
            i = i + 1;
        }
        assert(tabs@ =~= self.tabs@);
        let mut s = AppSettings {
            theme: self.theme.clone(),
            download_path: self.download_path.clone(),
            current_tab: self.current_tab,
            notification_settings: NotificationSettings {
                enabled: self.notifications_enabled,
                show_message_notifications: self.show_message_notifications,
                show_call_notifications: self.show_call_notifications,
                sound_enabled: self.notification_sound_enabled,
                show_sender: self.show_sender,
            },
            tabs,
        };
        s.encrypt_fields();
        s
    }

    /// The save path up to the write: the rendered snapshot, or the error
    /// when the config directory cannot be resolved.
    pub fn save_settings(&self, dir_available: bool) -> (r: Result<String, SaveError>)
        ensures
            !dir_available ==> (r matches Err(e) && e is ConfigDirUnavailable),
            dir_available ==> (r matches Ok(doc) && doc@
                == crate::codec::render_settings_model(self.spec_snapshot())),
    {
        let snapshot = self.snapshot();
        crate::store::prepare_save(&snapshot, dir_available)
    }

    /// The two mutually exclusive signals of a save: `SettingsSaved` on
    /// success, `SaveFailed` with the human-readable reason otherwise.
    pub fn save_result_events(r: &Result<(), SaveError>) -> (events: Vec<AppEvent>)
        ensures
            events@.len() == 1,
            r is Ok ==> events@[0] is SettingsSaved,
            (r matches Err(e) ==> (events@[0] matches AppEvent::SaveFailed(msg) && msg@
                == e.spec_message())),
    {
        let mut events: Vec<AppEvent> = Vec::new();
        match r {
            Ok(_) => events.push(AppEvent::SettingsSaved),
            Err(e) => events.push(AppEvent::SaveFailed(e.message())),
        }
        events
    }

    /// Installs a loaded snapshot and raises every change event, in the
    /// fixed order the UI expects. The stylesheet cache is left alone; it is
    /// derived again on the next theme change.
    pub fn apply_loaded(&mut self, s: AppSettings) -> (events: Vec<AppEvent>)
        ensures
            final(self).theme == s.theme,
            final(self).download_path == s.download_path,
            final(self).current_tab == s.current_tab,
            final(self).spec_notification_settings() == s.notification_settings,
            final(self).tabs == s.tabs,
            final(self).css_cache == old(self).css_cache,
            events@.len() == 8,
            events@[0] is ThemeChanged,
            events@[1] is DownloadPathChanged,
            events@[2] is CurrentTabChanged,
            events@[3] is NotificationsEnabledChanged,
            events@[4] is ShowMessageNotificationsChanged,
            events@[5] is ShowCallNotificationsChanged,
            events@[6] is NotificationSoundEnabledChanged,
            events@[7] is ShowSenderChanged,
    {
        self.theme = s.theme;
        self.download_path = s.download_path;
        self.current_tab = s.current_tab;
        self.notifications_enabled = s.notification_settings.enabled;
        self.show_message_notifications = s.notification_settings.show_message_notifications;
        self.show_call_notifications = s.notification_settings.show_call_notifications;
        self.notification_sound_enabled = s.notification_settings.sound_enabled;
        self.show_sender = s.notification_settings.show_sender;
        self.tabs = s.tabs;
        let mut events: Vec<AppEvent> = Vec::new();
        events.push(AppEvent::ThemeChanged);
        events.push(AppEvent::DownloadPathChanged);
        events.push(AppEvent::CurrentTabChanged);
        events.push(AppEvent::NotificationsEnabledChanged);
        events.push(AppEvent::ShowMessageNotificationsChanged);
        events.push(AppEvent::ShowCallNotificationsChanged);
        events.push(AppEvent::NotificationSoundEnabledChanged);
        events.push(AppEvent::ShowSenderChanged);
        events
    }

    /// The load path after the read: a missing or malformed file leaves the
    /// state untouched and raises nothing; a well-formed one is installed
    /// with its change events.
    pub fn load_settings(&mut self, data: Option<&str>) -> (events: Vec<AppEvent>)
        ensures
            ({
                let parsed = match data {
                    Some(d) => crate::codec::sp_settings_doc(d@),
                    None => None,
                };
                match parsed {
                    Some(m) => {
                        &&& final(self).spec_snapshot() == m
                        &&& final(self).css_cache == old(self).css_cache
                        &&& events@.len() == 8
                    },
                    None => *final(self) == *old(self) && events@.len() == 0,
                }
            }),
    {
        match crate::store::load_settings_data(data) {
            Some(s) => {
                let ghost m = s@;
                let events = self.apply_loaded(s);
                proof {
                    assert(tab_views(self.tabs@) =~= m.tabs);
                    assert(self.spec_snapshot() =~= m);
                }
                events
            },
            None => Vec::new(),
        }
    }
}

} // verus!
