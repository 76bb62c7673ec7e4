use shell_settings::codec::{parse_settings, render_settings};
use shell_settings::notification::NotificationSettings;
use shell_settings::settings::{AppSettings, TabInfo};
use shell_settings::store::load_settings_data;

fn sample_settings() -> AppSettings {
    AppSettings {
        theme: "dark".to_string(),
        download_path: "/home/user/Downloads".to_string(),
        current_tab: 2,
        notification_settings: NotificationSettings {
            enabled: true,
            show_message_notifications: false,
            show_call_notifications: true,
            sound_enabled: false,
            show_sender: true,
        },
        tabs: vec![
            TabInfo { name: "WhatsApp".to_string(), icon: "icons/wa.png".to_string() },
            TabInfo { name: "Work".to_string(), icon: "icons/work.png".to_string() },
        ],
    }
}

fn assert_settings_eq(a: &AppSettings, b: &AppSettings) {
    assert_eq!(a.theme, b.theme);
    assert_eq!(a.download_path, b.download_path);
    assert_eq!(a.current_tab, b.current_tab);
    assert_eq!(a.notification_settings, b.notification_settings);
    assert_eq!(a.tabs.len(), b.tabs.len());
    for (x, y) in a.tabs.iter().zip(b.tabs.iter()) {
        assert_eq!(x.name, y.name);
        assert_eq!(x.icon, y.icon);
    }
}

#[test]
fn round_trip_sample() {
    let s = sample_settings();
    let doc = render_settings(&s);
    let parsed = parse_settings(&doc).expect("rendered settings must parse");
    assert_settings_eq(&s, &parsed);
}

#[test]
fn round_trip_empty_strings_and_no_tabs() {
    let s = AppSettings {
        theme: String::new(),
        download_path: String::new(),
        current_tab: 0,
        notification_settings: NotificationSettings::default(),
        tabs: Vec::new(),
    };
    let doc = render_settings(&s);
    let parsed = parse_settings(&doc).expect("rendered settings must parse");
    assert_settings_eq(&s, &parsed);
}

#[test]
fn round_trip_negative_tab_index() {
    let mut s = sample_settings();
    s.current_tab = -3;
    let parsed = parse_settings(&render_settings(&s)).unwrap();
    assert_eq!(parsed.current_tab, -3);
}

#[test]
fn round_trip_extreme_tab_indices() {
    for n in [i32::MIN, i32::MAX, -1, 1] {
        let mut s = sample_settings();
        s.current_tab = n;
        let parsed = parse_settings(&render_settings(&s)).unwrap();
        assert_eq!(parsed.current_tab, n);
    }
}

#[test]
fn round_trip_quotes_and_backslashes() {
    let mut s = sample_settings();
    s.theme = "da\"rk\\".to_string();
    s.download_path = "C:\\Users\\me\\\"downloads\"".to_string();
    s.tabs = vec![TabInfo { name: "a\\b\"c".to_string(), icon: "\\\"".to_string() }];
    let doc = render_settings(&s);
    let parsed = parse_settings(&doc).expect("escaped strings must parse");
    assert_settings_eq(&s, &parsed);
}

#[test]
fn load_missing_file_gives_nothing() {
    assert!(load_settings_data(None).is_none());
}

#[test]
fn load_invalid_json_gives_nothing() {
    for bad in [
        "",
        "{ not json",
        "[1, 2, 3]",
        "{\"theme\": }",
        "{\"theme\": \"dark\"",
        "null",
        "{\"theme\": \"dark\"} trailing",
    ] {
        assert!(load_settings_data(Some(bad)).is_none(), "accepted: {}", bad);
    }
}

#[test]
fn load_unescaped_control_characters_gives_nothing() {
    // A raw line feed, carriage return, tab or other control character
    // inside a JSON string makes the document invalid; defaults apply.
    for bad in [
        "{\"theme\":\"\n\"}",
        "{\"theme\":\"\r\"}",
        "{\"theme\":\"\t\"}",
        "{\"theme\":\"\u{1}\"}",
        "{\"theme\":\"a\nb\"}",
    ] {
        assert!(load_settings_data(Some(bad)).is_none(), "accepted: {:?}", bad);
    }
}

#[test]
fn load_unknown_escape_gives_nothing() {
    assert!(load_settings_data(Some("{\"theme\":\"\\x\"}")).is_none());
}

#[test]
fn parse_standard_escapes() {
    let parsed = parse_settings("{\"theme\":\"a\\n\\t\\r\\\\\\\"b\"}").unwrap();
    assert_eq!(parsed.theme, "a\n\t\r\\\"b");
}

#[test]
fn round_trip_escaped_control_characters() {
    let mut s = sample_settings();
    s.theme = "line\nbreak\tand\rreturn".to_string();
    s.tabs = vec![TabInfo { name: "a\nb".to_string(), icon: "c\td".to_string() }];
    let doc = render_settings(&s);
    let parsed = parse_settings(&doc).expect("escaped control characters must parse");
    assert_settings_eq(&s, &parsed);
    let v: serde_json::Value = serde_json::from_str(&doc).expect("output must be valid JSON");
    assert_eq!(v["theme"].as_str().unwrap(), "line\nbreak\tand\rreturn");
}

#[test]
fn parse_empty_object_gives_defaults() {
    let parsed = parse_settings("{}").expect("empty object is a valid document");
    assert_eq!(parsed.theme, "");
    assert_eq!(parsed.download_path, "");
    assert_eq!(parsed.current_tab, 0);
    assert_eq!(parsed.notification_settings, NotificationSettings::default());
    assert!(parsed.tabs.is_empty());
}

#[test]
fn parse_missing_members_fall_back_to_defaults() {
    let parsed = parse_settings("{\n  \"theme\": \"light\"\n}").unwrap();
    assert_eq!(parsed.theme, "light");
    assert_eq!(parsed.current_tab, 0);
    assert!(parsed.notification_settings.enabled);
    assert!(parsed.tabs.is_empty());
}

#[test]
fn parse_members_in_any_order() {
    let doc = "{ \"current_tab\": 5, \"theme\": \"dark\" }";
    let parsed = parse_settings(doc).unwrap();
    assert_eq!(parsed.current_tab, 5);
    assert_eq!(parsed.theme, "dark");
}

#[test]
fn parse_free_form_whitespace() {
    let doc = "  {\t\"theme\"\n:\n\"dark\" ,\r\n \"current_tab\" :\t7 }  ";
    let parsed = parse_settings(doc).unwrap();
    assert_eq!(parsed.theme, "dark");
    assert_eq!(parsed.current_tab, 7);
}

#[test]
fn parse_partial_notification_object() {
    let doc = "{ \"notification_settings\": { \"sound_enabled\": false } }";
    let parsed = parse_settings(doc).unwrap();
    assert!(!parsed.notification_settings.sound_enabled);
    assert!(parsed.notification_settings.enabled);
}

#[test]
fn parse_unknown_members_are_ignored() {
    // A field this version does not know is skipped; the known fields
    // around it still load.
    let doc = "{ \"zzz\": 1, \"theme\": \"dark\", \"future\": \"x\", \"current_tab\": 3 }";
    let parsed = parse_settings(doc).unwrap();
    assert_eq!(parsed.theme, "dark");
    assert_eq!(parsed.current_tab, 3);
}

#[test]
fn parse_unknown_members_of_any_shape_are_ignored() {
    for doc in [
        "{ \"a\": null, \"theme\": \"dark\" }",
        "{ \"a\": -1.5e+10, \"theme\": \"dark\" }",
        "{ \"a\": true, \"theme\": \"dark\" }",
        "{ \"a\": [1, \"two\", [3]], \"theme\": \"dark\" }",
        "{ \"a\": { \"b\": { \"c\": [] }, \"d\": 1 }, \"theme\": \"dark\" }",
        "{ \"theme\": \"dark\", \"notification_settings\": { \"enabled\": false, \"zzz\": 9 } }",
        "{ \"tabs\": [ { \"name\": \"t\", \"zzz\": {}, \"icon\": \"i\" } ], \"theme\": \"dark\" }",
    ] {
        let parsed = parse_settings(doc).expect(doc);
        assert_eq!(parsed.theme, "dark", "in {}", doc);
    }
    let parsed = parse_settings(
        "{ \"notification_settings\": { \"enabled\": false, \"zzz\": 9 } }",
    )
    .unwrap();
    assert!(!parsed.notification_settings.enabled);
    let parsed = parse_settings(
        "{ \"tabs\": [ { \"name\": \"t\", \"zzz\": {}, \"icon\": \"i\" } ] }",
    )
    .unwrap();
    assert_eq!(parsed.tabs[0].name, "t");
    assert_eq!(parsed.tabs[0].icon, "i");
}

#[test]
fn parse_malformed_unknown_member_is_malformed() {
    assert!(parse_settings("{ \"zzz\": nope, \"theme\": \"dark\" }").is_none());
    assert!(parse_settings("{ \"zzz\": [1,, 2], \"theme\": \"dark\" }").is_none());
    assert!(parse_settings("{ \"zzz\": {\"a\" 1}, \"theme\": \"dark\" }").is_none());
}

#[test]
fn parse_duplicate_member_is_malformed() {
    assert!(parse_settings("{ \"theme\": \"a\", \"theme\": \"b\" }").is_none());
}

#[test]
fn parse_tab_index_out_of_machine_range_is_malformed() {
    assert!(parse_settings("{ \"current_tab\": 2147483648 }").is_none());
    assert!(parse_settings("{ \"current_tab\": -2147483649 }").is_none());
    let parsed = parse_settings("{ \"current_tab\": 2147483647 }").unwrap();
    assert_eq!(parsed.current_tab, i32::MAX);
    let parsed = parse_settings("{ \"current_tab\": -2147483648 }").unwrap();
    assert_eq!(parsed.current_tab, i32::MIN);
}

#[test]
fn rendered_document_is_real_json() {
    let s = sample_settings();
    let doc = render_settings(&s);
    let v: serde_json::Value = serde_json::from_str(&doc).expect("output must be valid JSON");
    assert_eq!(v["theme"].as_str().unwrap(), "dark");
    assert_eq!(v["download_path"].as_str().unwrap(), "/home/user/Downloads");
    assert_eq!(v["current_tab"].as_i64().unwrap(), 2);
    assert_eq!(v["notification_settings"]["enabled"].as_bool().unwrap(), true);
    assert_eq!(v["notification_settings"]["sound_enabled"].as_bool().unwrap(), false);
    let tabs = v["tabs"].as_array().unwrap();
    assert_eq!(tabs.len(), 2);
    assert_eq!(tabs[0]["name"].as_str().unwrap(), "WhatsApp");
    assert_eq!(tabs[1]["icon"].as_str().unwrap(), "icons/work.png");
}

#[test]
fn rendered_escapes_survive_real_json() {
    let mut s = sample_settings();
    s.theme = "da\"rk\\".to_string();
    let doc = render_settings(&s);
    let v: serde_json::Value = serde_json::from_str(&doc).expect("output must be valid JSON");
    assert_eq!(v["theme"].as_str().unwrap(), "da\"rk\\");
}
