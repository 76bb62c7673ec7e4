//! The persisted application state: one snapshot of every user-configurable
//! setting, written as a whole to `settings.json` on each save and read once
//! at startup.

use vstd::prelude::*;
use crate::notification::NotificationSettings;

verus! {

/// One tab of the shell: a display name and an icon path or identifier.
/// List order is display order; names need not be unique.
pub struct TabInfo {
    pub name: String,
    pub icon: String,
}

/// The mathematical value of a [`TabInfo`].
#[verifier::ext_equal]
pub struct TabModel {
    pub name: Seq<char>,
    pub icon: Seq<char>,
}

impl View for TabInfo {
    type V = TabModel;

    open spec fn view(&self) -> TabModel {
        TabModel { name: self.name@, icon: self.icon@ }
    }
}

impl Clone for TabInfo {
    fn clone(&self) -> (r: Self)
        ensures
            r == *self,
    {
        TabInfo { name: self.name.clone(), icon: self.icon.clone() }
    }
}

/// The single on-disk snapshot of all user-configurable state.
pub struct AppSettings {
    pub theme: String,
    pub download_path: String,
    pub current_tab: i32,
    pub notification_settings: NotificationSettings,
    pub tabs: Vec<TabInfo>,
}

/// The mathematical value of an [`AppSettings`] snapshot.
#[verifier::ext_equal]
pub struct SettingsModel {
    pub theme: Seq<char>,
    pub download_path: Seq<char>,
    pub current_tab: int,
    pub notification_settings: NotificationSettings,
    pub tabs: Seq<TabModel>,
}

impl View for AppSettings {
    type V = SettingsModel;

    open spec fn view(&self) -> SettingsModel {
        SettingsModel {
            theme: self.theme@,
            download_path: self.download_path@,
            current_tab: self.current_tab as int,
            notification_settings: self.notification_settings,
            tabs: self.tabs@.map_values(|t: TabInfo| t@),
        }
    }
}

impl SettingsModel {
    /// Every snapshot the library builds satisfies this; it bounds the tab
    /// index to its machine representation.
    pub open spec fn wf(self) -> bool {
        i32::MIN <= self.current_tab <= i32::MAX
    }

    /// The value a snapshot falls back to where nothing was persisted.
    pub open spec fn spec_default() -> SettingsModel {
        SettingsModel {
            theme: Seq::empty(),
            download_path: Seq::empty(),
            current_tab: 0,
            notification_settings: NotificationSettings::spec_default(),
            tabs: Seq::empty(),
        }
    }
}

impl Default for AppSettings {
    fn default() -> (s: Self)
        ensures
            s@ == SettingsModel::spec_default(),
    {
        let s = AppSettings {
            theme: String::new(),
            download_path: String::new(),
            current_tab: 0,
            notification_settings: NotificationSettings::default(),
            tabs: Vec::new(),
        };
        assert(s@.tabs =~= Seq::<TabModel>::empty());
        assert(s@ =~= SettingsModel::spec_default());
        s
    }
}

impl Clone for AppSettings {
    fn clone(&self) -> (r: Self)
        ensures
            r@ == self@,
    {
        let mut tabs: Vec<TabInfo> = Vec::new();
        let mut i: usize = 0;
        while i < self.tabs.len()
            invariant
                i <= self.tabs@.len(),
                tabs@.len() == i,
                forall|k: int| 0 <= k < i ==> tabs@[k] == self.tabs@[k],
            decreases self.tabs@.len() - i,
        {
            tabs.push(self.tabs[i].clone());
            i = i + 1;
        }
        assert(tabs@ =~= self.tabs@);
        let r = AppSettings {
            theme: self.theme.clone(),
            download_path: self.download_path.clone(),
            current_tab: self.current_tab,
            notification_settings: self.notification_settings,
            tabs,
        };
        assert(r@.tabs =~= self@.tabs);
        assert(r@ =~= self@);
        r
    }
}

impl AppSettings {
    /// Reserved step run on every snapshot just before it is serialized.
    /// No field is encrypted yet, so it leaves the snapshot untouched.
    pub fn encrypt_fields(&mut self)
        ensures
            *final(self) == *old(self),
    {
    }
}

/// Why a snapshot could not be saved.
#[derive(Debug)]
pub enum SaveError {
    ConfigDirUnavailable,
    SerializationFailed,
    WriteFailed(String),
}

impl SaveError {
    /// What [`SaveError::message`] returns for each variant.
    pub open spec fn spec_message(self) -> Seq<char> {
        match self {
            SaveError::ConfigDirUnavailable => "Could not find config directory"@,
            SaveError::SerializationFailed => "Failed to serialize settings"@,
            SaveError::WriteFailed(reason) => reason@,
        }
    }

    /// The human-readable reason surfaced to the UI when a save fails.
    pub fn message(&self) -> (r: String)
        ensures
            r@ == self.spec_message(),
    {
        match self {
            SaveError::ConfigDirUnavailable => "Could not find config directory".to_owned(),
            SaveError::SerializationFailed => "Failed to serialize settings".to_owned(),
            SaveError::WriteFailed(reason) => reason.clone(),
        }
    }
}

} // verus!
