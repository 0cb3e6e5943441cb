use imagegen::models::AppSettings;
use imagegen::settings::{get_settings, save_settings};
use imagegen::store::{SettingValue, SettingsStore};

fn text(s: &str) -> SettingValue {
    SettingValue::Text(String::from(s))
}

#[test]
fn empty_store_yields_defaults() {
    let store = SettingsStore::new();
    let s = get_settings(&store);
    assert_eq!(s.provider, "doubao");
    assert_eq!(s.doubao_api_key, None);
    assert_eq!(s.zhipu_api_key, None);
    assert_eq!(s.zhipu_watermark, None);
    assert_eq!(s.theme, None);
}

#[test]
fn set_then_get_text() {
    let mut store = SettingsStore::new();
    store.set_text("provider", "zhipu");
    assert_eq!(store.get_text("provider"), Some(String::from("zhipu")));
    assert_eq!(store.get_text("missing"), None);
}

#[test]
fn set_overwrites_previous_binding() {
    let mut store = SettingsStore::new();
    store.set_text("provider", "zhipu");
    store.set_text("provider", "doubao");
    assert_eq!(store.get_text("provider"), Some(String::from("doubao")));
}

#[test]
fn flag_and_text_do_not_mix() {
    let mut store = SettingsStore::new();
    store.set_flag("zhipu_watermark", false);
    assert_eq!(store.get_text("zhipu_watermark"), None);
    assert_eq!(store.get_flag("zhipu_watermark"), Some(false));
    store.set_text("zhipu_watermark", "yes");
    assert_eq!(store.get_flag("zhipu_watermark"), None);
}

#[test]
fn from_pairs_later_pairs_win() {
    let pairs = vec![
        (String::from("provider"), text("zhipu")),
        (String::from("theme"), text("dark")),
        (String::from("provider"), text("openai")),
    ];
    let store = SettingsStore::from_pairs(pairs);
    assert_eq!(store.get_text("provider"), Some(String::from("openai")));
    assert_eq!(store.get_text("theme"), Some(String::from("dark")));
}

#[test]
fn save_then_get_returns_saved_fields() {
    let mut store = SettingsStore::new();
    let saved = AppSettings {
        provider: String::from("zhipu"),
        doubao_api_key: Some(String::from("dk-test-token")),
        zhipu_api_key: Some(String::from("zk")),
        zhipu_watermark: Some(false),
        theme: Some(String::from("dark")),
    };
    save_settings(&mut store, &saved);
    let got = get_settings(&store);
    assert_eq!(got, saved);
}

#[test]
fn omitted_fields_keep_prior_values() {
    let mut store = SettingsStore::new();
    let first = AppSettings {
        provider: String::from("doubao"),
        doubao_api_key: Some(String::from("first-key")),
        zhipu_api_key: Some(String::from("zk")),
        zhipu_watermark: Some(true),
        theme: Some(String::from("light")),
    };
    save_settings(&mut store, &first);
    let patch = AppSettings {
        provider: String::from("zhipu"),
        doubao_api_key: None,
        zhipu_api_key: None,
        zhipu_watermark: None,
        theme: None,
    };
    save_settings(&mut store, &patch);
    let got = get_settings(&store);
    assert_eq!(got.provider, "zhipu");
    assert_eq!(got.doubao_api_key, Some(String::from("first-key")));
    assert_eq!(got.zhipu_api_key, Some(String::from("zk")));
    assert_eq!(got.zhipu_watermark, Some(true));
    assert_eq!(got.theme, Some(String::from("light")));
}
