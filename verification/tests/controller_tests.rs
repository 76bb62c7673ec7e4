use shell_settings::codec::parse_settings;
use shell_settings::controller::{AppController, AppEvent, Platform, get_user_agent, update_available};
use shell_settings::notification::{NotificationService, RecordingBackend};
use shell_settings::settings::SaveError;

#[test]
fn default_controller_state() {
    let c = AppController::default();
    assert_eq!(c.current_tab, 0);
    assert_eq!(c.theme, "system");
    assert_eq!(c.download_path, "");
    assert_eq!(c.css_cache, "");
    assert!(c.notifications_enabled);
    assert!(c.show_message_notifications);
    assert!(c.show_call_notifications);
    assert!(c.notification_sound_enabled);
    assert!(c.show_sender);
    assert!(c.tabs.is_empty());
}

#[test]
fn generate_css_dark_has_dark_background() {
    let c = AppController::default();
    let css = c.generate_css("dark");
    assert!(!css.is_empty());
    assert!(css.contains("#1e1e1e"));
    assert_eq!(css, c.generate_css("dark"), "must be deterministic");
}

#[test]
fn generate_css_light_has_light_background() {
    let c = AppController::default();
    let css = c.generate_css("light");
    assert!(!css.is_empty());
    assert!(css.contains("#ffffff"));
}

#[test]
fn generate_css_other_themes_are_empty() {
    let c = AppController::default();
    assert_eq!(c.generate_css("system"), "");
    assert_eq!(c.generate_css(""), "");
    assert_eq!(c.generate_css("Dark"), "");
    assert_eq!(c.generate_css("solarized"), "");
}

#[test]
fn set_theme_emits_change_and_stylesheet() {
    let mut c = AppController::default();
    let events = c.set_theme("dark".to_string());
    assert_eq!(c.theme, "dark");
    assert_eq!(events.len(), 2);
    assert!(matches!(events[0], AppEvent::ThemeChanged));
    match &events[1] {
        AppEvent::ApplyThemeCss(css) => assert!(css.contains("#1e1e1e")),
        other => panic!("expected ApplyThemeCss, got {:?}", other),
    }
    assert_eq!(c.get_theme_css(), c.generate_css("dark"));
}

#[test]
fn theme_scenario_dark_then_notifications_off() {
    // Set the theme to dark and observe the stylesheet signal.
    let mut c = AppController::default();
    let events = c.set_theme("dark".to_string());
    match &events[1] {
        AppEvent::ApplyThemeCss(css) => assert!(css.contains("#1e1e1e")),
        other => panic!("expected ApplyThemeCss, got {:?}", other),
    }
    // Toggle notifications off and save: the persisted document records it.
    let events = c.set_notifications_enabled(false);
    assert_eq!(events.len(), 1);
    assert!(matches!(events[0], AppEvent::NotificationsEnabledChanged));
    let doc = c.save_settings(true).expect("save with a config dir succeeds");
    let reloaded = parse_settings(&doc).expect("saved document parses");
    assert!(!reloaded.notification_settings.enabled);
    // A test notification now succeeds without any backend invocation.
    let mut service = NotificationService::new();
    c.update_notification_settings(&mut service);
    let mut backend = RecordingBackend::new();
    let r = service.test_notification(&mut backend, "icon.png");
    assert!(r.is_ok());
    assert_eq!(backend.count(), 0);
}

#[test]
fn save_without_config_dir_fails_cleanly() {
    let c = AppController::default();
    let r = c.save_settings(false);
    assert!(matches!(r, Err(SaveError::ConfigDirUnavailable)));
    let r: Result<(), SaveError> = Err(SaveError::ConfigDirUnavailable);
    let events = AppController::save_result_events(&r);
    assert_eq!(events.len(), 1);
    match &events[0] {
        AppEvent::SaveFailed(msg) => assert_eq!(msg, "Could not find config directory"),
        other => panic!("expected SaveFailed, got {:?}", other),
    }
}

#[test]
fn save_error_messages() {
    assert_eq!(SaveError::ConfigDirUnavailable.message(), "Could not find config directory");
    assert_eq!(SaveError::SerializationFailed.message(), "Failed to serialize settings");
    assert_eq!(SaveError::WriteFailed("disk full".to_string()).message(), "disk full");
}

#[test]
fn successful_save_signals_settings_saved() {
    let r: Result<(), SaveError> = Ok(());
    let events = AppController::save_result_events(&r);
    assert_eq!(events.len(), 1);
    assert!(matches!(events[0], AppEvent::SettingsSaved));
}

#[test]
fn save_then_load_restores_state() {
    let mut c = AppController::default();
    c.set_theme("light".to_string());
    c.set_download_path("/tmp/dl".to_string());
    c.set_current_tab(4);
    c.add_tab("Main".to_string(), "main.png".to_string());
    c.set_notification_sound_enabled(false);
    let doc = c.save_settings(true).unwrap();

    let mut fresh = AppController::default();
    let events = fresh.load_settings(Some(&doc));
    assert_eq!(events.len(), 8);
    assert!(matches!(events[0], AppEvent::ThemeChanged));
    assert!(matches!(events[7], AppEvent::ShowSenderChanged));
    assert_eq!(fresh.theme, "light");
    assert_eq!(fresh.download_path, "/tmp/dl");
    assert_eq!(fresh.current_tab, 4);
    assert!(!fresh.notification_sound_enabled);
    assert_eq!(fresh.tabs.len(), 1);
    assert_eq!(fresh.tabs[0].name, "Main");
}

#[test]
fn load_missing_or_malformed_changes_nothing() {
    let mut c = AppController::default();
    c.set_theme("dark".to_string());
    assert_eq!(c.load_settings(None).len(), 0);
    assert_eq!(c.theme, "dark");
    assert_eq!(c.load_settings(Some("not json at all")).len(), 0);
    assert_eq!(c.theme, "dark");
}

#[test]
fn tab_mutators() {
    let mut c = AppController::default();
    let events = c.add_tab("A".to_string(), "a.png".to_string());
    assert!(matches!(&events[0], AppEvent::TabAdded(n, i) if n == "A" && i == "a.png"));
    c.add_tab("B".to_string(), "b.png".to_string());
    assert_eq!(c.tabs.len(), 2);

    let events = c.rename_tab(1, "B2".to_string());
    assert!(matches!(&events[0], AppEvent::TabRenamed(1, n) if n == "B2"));
    assert_eq!(c.tabs[1].name, "B2");
    assert_eq!(c.tabs[1].icon, "b.png");

    let events = c.rename_tab(9, "X".to_string());
    assert!(events.is_empty());
    assert_eq!(c.tabs.len(), 2);

    let events = c.remove_tab(0);
    assert!(matches!(events[0], AppEvent::TabRemoved(0)));
    assert_eq!(c.tabs.len(), 1);
    assert_eq!(c.tabs[0].name, "B2");

    let events = c.remove_tab(-1);
    assert!(events.is_empty());
    assert_eq!(c.tabs.len(), 1);
}

#[test]
fn simple_setters_emit_their_events() {
    let mut c = AppController::default();
    let events = c.set_current_tab(3);
    assert!(matches!(events[0], AppEvent::CurrentTabChanged));
    assert_eq!(c.current_tab, 3);
    let events = c.set_download_path("/downloads".to_string());
    assert!(matches!(events[0], AppEvent::DownloadPathChanged));
    assert_eq!(c.download_path, "/downloads");
    let events = c.set_show_message_notifications(false);
    assert!(matches!(events[0], AppEvent::ShowMessageNotificationsChanged));
    assert!(!c.show_message_notifications);
    let events = c.set_show_call_notifications(false);
    assert!(matches!(events[0], AppEvent::ShowCallNotificationsChanged));
    assert!(!c.show_call_notifications);
    let events = c.set_show_sender(false);
    assert!(matches!(events[0], AppEvent::ShowSenderChanged));
    assert!(!c.show_sender);
}

#[test]
fn update_notification_settings_pushes_flags() {
    let mut c = AppController::default();
    c.set_notification_sound_enabled(false);
    c.set_show_sender(false);
    let mut service = NotificationService::new();
    c.update_notification_settings(&mut service);
    assert!(service.settings.enabled);
    assert!(!service.settings.sound_enabled);
    assert!(!service.settings.show_sender);
}

#[test]
fn user_agent_per_platform() {
    assert!(get_user_agent(Platform::Linux).contains("X11; Linux"));
    assert!(get_user_agent(Platform::MacOs).contains("Macintosh"));
    assert!(get_user_agent(Platform::Windows).contains("Windows NT 10.0"));
    assert_eq!(get_user_agent(Platform::Other), get_user_agent(Platform::Linux));
}

#[test]
fn update_available_compares_versions() {
    assert!(update_available("v1.2.0", "v1.1.0"));
    assert!(!update_available("v1.1.0", "v1.1.0"));
}

#[test]
fn encrypt_fields_leaves_snapshot_unchanged() {
    let mut c = AppController::default();
    c.set_theme("dark".to_string());
    let mut s = c.snapshot();
    let theme_before = s.theme.clone();
    s.encrypt_fields();
    assert_eq!(s.theme, theme_before);
}
