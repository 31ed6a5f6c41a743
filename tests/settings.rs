use tungsten_workspace::assets::EmbeddedFile;
use tungsten_workspace::settings::{
    asset_str, default_settings, user_settings, SettingKind, SettingsAssets, SettingsError,
    SettingsSources, SettingsStore,
};

fn store() -> SettingsStore {
    SettingsStore::new(serde_json::Value::Object(Default::default()), serde_json::Value::Object(Default::default()))
}

#[test]
fn registering_a_setting_twice_is_registering_it_once() {
    let mut s = store();
    assert!(s.register_setting(SettingKind(1)));
    assert!(s.register_setting(SettingKind(2)));
    assert!(!s.register_setting(SettingKind(1)));
    assert_eq!(s.setting_values, vec![SettingKind(1), SettingKind(2)]);
    assert!(s.is_registered(SettingKind(2)));
    assert!(!s.is_registered(SettingKind(3)));
}

#[test]
fn default_settings_accept_json_with_comments() {
    let mut s = store();
    let r = s.set_default_settings("{\n  // font\n  \"ui_font_size\": 14,\n}");
    assert_eq!(r, Ok(()));
    assert_eq!(s.raw_default_settings["ui_font_size"], serde_json::Value::from(14));
}

#[test]
fn settings_that_are_not_json_are_refused() {
    let mut s = store();
    assert_eq!(s.set_default_settings("{ nope"), Err(SettingsError::InvalidJson));
    assert!(s.raw_default_settings.as_object().unwrap().is_empty());
}

#[test]
fn settings_that_are_not_an_object_are_refused() {
    let mut s = store();
    assert_eq!(s.set_user_settings("[1, 2]"), Err(SettingsError::NotAnObject));
    assert!(s.raw_user_settings.is_object());
}

#[test]
fn empty_user_settings_stand_for_the_empty_object() {
    let mut s = store();
    assert_eq!(s.set_user_settings("{\"a\": true}"), Ok(()));
    assert_eq!(s.raw_user_settings["a"], serde_json::Value::Bool(true));
    assert_eq!(s.set_user_settings(""), Ok(()));
    assert!(s.raw_user_settings.as_object().unwrap().is_empty());
}

fn assets() -> SettingsAssets {
    SettingsAssets {
        files: vec![
            EmbeddedFile { path: "settings/default.json".to_string(), data: b"{\"x\": 1}".to_vec() },
            EmbeddedFile { path: "settings/user.json".to_string(), data: vec![0xff, 0xfe] },
            EmbeddedFile { path: "keymaps/default.json".to_string(), data: "[\"\u{e9}\"]".as_bytes().to_vec() },
        ],
    }
}

#[test]
fn embedded_assets_are_read_as_text() {
    let a = assets();
    assert_eq!(default_settings(&a), Some("{\"x\": 1}".to_string()));
    assert_eq!(asset_str(&a, &"keymaps/default.json".to_string()), Some("[\"\u{e9}\"]".to_string()));
}

#[test]
fn missing_or_invalid_assets_give_nothing() {
    let a = assets();
    assert_eq!(user_settings(&a), None);
    assert_eq!(asset_str(&a, &"settings/other.json".to_string()), None);
}

#[test]
fn sources_list_defaults_before_customizations() {
    let d = 1;
    let u = 2;
    let with_user = SettingsSources { default: &d, user: Some(&u) };
    assert_eq!(with_user.defaults_and_customizations(), vec![&1, &2]);
    assert_eq!(with_user.customizations(), vec![&2]);
    let without = SettingsSources { default: &d, user: None };
    assert_eq!(without.defaults_and_customizations(), vec![&1]);
    assert!(without.customizations().is_empty());
}

#[test]
fn applying_parsed_settings_follows_the_object_test() {
    let mut s = store();
    let value: serde_json::Value = serde_json::from_str("{\"k\": 1}").unwrap();
    assert_eq!(s.apply_default_settings(value.clone(), false), Err(SettingsError::NotAnObject));
    assert!(s.raw_default_settings.as_object().unwrap().is_empty());
    assert_eq!(s.apply_default_settings(value.clone(), true), Ok(()));
    assert_eq!(s.raw_default_settings, value);
    assert_eq!(s.apply_user_settings(value.clone(), true), Ok(()));
    assert_eq!(s.raw_user_settings, value);
}
