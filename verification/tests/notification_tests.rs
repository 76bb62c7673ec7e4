use shell_settings::notification::{
    notification_script, NotificationBackend, NotificationError, NotificationService,
    NotificationSettings, RecordingBackend, UnsupportedBackend,
};

#[test]
fn default_settings_all_on() {
    let s = NotificationSettings::default();
    assert!(s.enabled);
    assert!(s.show_message_notifications);
    assert!(s.show_call_notifications);
    assert!(s.sound_enabled);
    assert!(s.show_sender);
}

#[test]
fn send_disabled_invokes_no_backend() {
    let mut service = NotificationService::new();
    let mut settings = NotificationSettings::default();
    settings.enabled = false;
    service.update_settings(settings);
    let mut backend = RecordingBackend::new();
    let r = service.send_notification(&mut backend, "title", "body", None);
    assert!(r.is_ok());
    assert_eq!(backend.count(), 0);
}

#[test]
fn send_enabled_records_one_request() {
    let service = NotificationService::new();
    let mut backend = RecordingBackend::new();
    let r = service.send_notification(&mut backend, "hello", "world", Some("icon.png"));
    assert!(r.is_ok());
    assert_eq!(backend.count(), 1);
    let req = &backend.delivered[0];
    assert_eq!(req.app_name, "WhatsApp-QT");
    assert_eq!(req.title, "hello");
    assert_eq!(req.body, "world");
    assert_eq!(req.icon.as_deref(), Some("icon.png"));
    assert_eq!(req.sound.as_deref(), Some("message-new-instant"));
    assert_eq!(req.timeout_ms, 5000);
}

#[test]
fn send_sound_disabled_requests_no_sound() {
    let mut service = NotificationService::new();
    let mut settings = NotificationSettings::default();
    settings.sound_enabled = false;
    service.update_settings(settings);
    let mut backend = RecordingBackend::new();
    let r = service.send_notification(&mut backend, "t", "b", None);
    assert!(r.is_ok());
    assert_eq!(backend.count(), 1);
    assert!(backend.delivered[0].sound.is_none());
}

#[test]
fn send_without_icon_attaches_none() {
    let service = NotificationService::new();
    let mut backend = RecordingBackend::new();
    service.send_notification(&mut backend, "t", "b", None).unwrap();
    assert!(backend.delivered[0].icon.is_none());
}

#[test]
fn unsupported_platform_fails_with_system_not_supported() {
    let service = NotificationService::new();
    let mut backend = UnsupportedBackend::new();
    let r = service.send_notification(&mut backend, "t", "b", None);
    assert!(matches!(r, Err(NotificationError::SystemNotSupported)));
    assert_eq!(backend.attempted.len(), 1);
}

#[test]
fn unsupported_platform_disabled_still_succeeds() {
    let mut service = NotificationService::new();
    let mut settings = NotificationSettings::default();
    settings.enabled = false;
    service.update_settings(settings);
    let mut backend = UnsupportedBackend::new();
    assert!(service.send_notification(&mut backend, "t", "b", None).is_ok());
    assert_eq!(backend.attempted.len(), 0);
}

#[test]
fn test_notification_uses_fixed_text_and_given_icon() {
    let service = NotificationService::new();
    let mut backend = RecordingBackend::new();
    let r = service.test_notification(&mut backend, "resources/icons/tray.png");
    assert!(r.is_ok());
    assert_eq!(backend.count(), 1);
    let req = &backend.delivered[0];
    assert_eq!(req.title, "WhatsApp-QT");
    assert_eq!(req.body, "Test Message from WhatsApp-QT");
    assert_eq!(req.icon.as_deref(), Some("resources/icons/tray.png"));
}

#[test]
fn error_messages_are_descriptive() {
    assert_eq!(
        NotificationError::SystemNotSupported.message(),
        "Notification system not supported"
    );
    assert_eq!(
        NotificationError::PermissionDenied.message(),
        "Notification permission denied"
    );
    assert_eq!(
        NotificationError::SendFailed("dbus down".to_string()).message(),
        "Failed to send notification: dbus down"
    );
}

#[test]
fn notification_script_quotes_and_escapes() {
    assert_eq!(
        notification_script("My Title", "hello"),
        "display notification \"hello\" with title \"My Title\""
    );
    assert_eq!(
        notification_script("a\"b", "say \"hi\""),
        "display notification \"say \\\"hi\\\"\" with title \"a\\\"b\""
    );
}

#[test]
fn recording_backend_keeps_order() {
    let service = NotificationService::new();
    let mut backend = RecordingBackend::new();
    service.send_notification(&mut backend, "first", "1", None).unwrap();
    service.send_notification(&mut backend, "second", "2", None).unwrap();
    assert_eq!(backend.count(), 2);
    assert_eq!(backend.delivered[0].title, "first");
    assert_eq!(backend.delivered[1].title, "second");
}
