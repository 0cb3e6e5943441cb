//! Reading and writing the settings record against the settings store.
//!
//! `save_settings` always writes the provider choice and writes each
//! optional field only when it is present; `get_settings` reads every
//! field back, defaulting the provider. Saving then reading returns the
//! saved values, and omitted fields keep their prior persisted values:
//! [`lemma_save_then_get`] states and proves that round trip.

use vstd::prelude::*;

use crate::models::{AppSettings, AppSettingsModel};
use crate::store::{SettingsStore, ValueModel};

verus! {

/// The provider assumed when none is configured.
pub open spec fn spec_default_provider() -> Seq<char> {
    "doubao"@
}

/// The text under `k`, if `m` holds text there.
pub open spec fn text_at(m: Map<Seq<char>, ValueModel>, k: Seq<char>) -> Option<Seq<char>> {
    if m.contains_key(k) && m[k] is Text {
        Some(m[k]->Text_0)
    } else {
        None
    }
}

/// The flag under `k`, if `m` holds a flag there.
pub open spec fn flag_at(m: Map<Seq<char>, ValueModel>, k: Seq<char>) -> Option<bool> {
    if m.contains_key(k) && m[k] is Flag {
        Some(m[k]->Flag_0)
    } else {
        None
    }
}

/// The store contents after saving `a`: the provider is always written,
/// optional fields only where present.
pub open spec fn spec_save(
    m: Map<Seq<char>, ValueModel>,
    a: AppSettingsModel,
) -> Map<Seq<char>, ValueModel> {
    let m1 = m.insert("provider"@, ValueModel::Text(a.provider));
    let m2 = if a.doubao_api_key is Some {
        m1.insert("doubao_api_key"@, ValueModel::Text(a.doubao_api_key->Some_0))
    } else {
        m1
    };
    let m3 = if a.zhipu_api_key is Some {
        m2.insert("zhipu_api_key"@, ValueModel::Text(a.zhipu_api_key->Some_0))
    } else {
        m2
    };
    let m4 = if a.zhipu_watermark is Some {
        m3.insert("zhipu_watermark"@, ValueModel::Flag(a.zhipu_watermark->Some_0))
    } else {
        m3
    };
    if a.theme is Some {
        m4.insert("theme"@, ValueModel::Text(a.theme->Some_0))
    } else {
        m4
    }
}

/// The settings record the store contents denote.
pub open spec fn spec_get(m: Map<Seq<char>, ValueModel>) -> AppSettingsModel {
    AppSettingsModel {
        provider: match text_at(m, "provider"@) {
            Some(p) => p,
            None => spec_default_provider(),
        },
        doubao_api_key: text_at(m, "doubao_api_key"@),
        zhipu_api_key: text_at(m, "zhipu_api_key"@),
        zhipu_watermark: flag_at(m, "zhipu_watermark"@),
        theme: text_at(m, "theme"@),
    }
}

/// Persist `settings` into the store: the provider choice always, each
/// optional field only when present, leaving other keys untouched.
pub fn save_settings(store: &mut SettingsStore, settings: &AppSettings)
    requires
        old(store).wf(),
    ensures
        final(store).wf(),
        final(store)@ == spec_save(old(store)@, settings@),
{
    store.set_text("provider", settings.provider.as_str());
    if let Some(key) = &settings.doubao_api_key {
        store.set_text("doubao_api_key", key.as_str());
    }
    if let Some(key) = &settings.zhipu_api_key {
        store.set_text("zhipu_api_key", key.as_str());
    }
    if let Some(watermark) = settings.zhipu_watermark {
        store.set_flag("zhipu_watermark", watermark);
    }
    if let Some(theme) = &settings.theme {
        store.set_text("theme", theme.as_str());
    }
}

/// Read the settings record out of the store, defaulting the provider
/// where none is configured.
pub fn get_settings(store: &SettingsStore) -> (s: AppSettings)
    requires
        store.wf(),
    ensures
        s@ == spec_get(store@),
{
    let provider = match store.get_text("provider") {
        Some(p) => p,
        None => String::from_str("doubao"),
    };
    let doubao_api_key = store.get_text("doubao_api_key");
    let zhipu_api_key = store.get_text("zhipu_api_key");
    let zhipu_watermark = store.get_flag("zhipu_watermark");
    let theme = store.get_text("theme");
    let s = AppSettings { provider, doubao_api_key, zhipu_api_key, zhipu_watermark, theme };
    proof {
        assert(s@ =~~= spec_get(store@));
    }
    s
}

/// Law: saving then reading gives back exactly the fields saved, and each
/// field omitted from the save keeps the value the store held before.
pub proof fn lemma_save_then_get(m: Map<Seq<char>, ValueModel>, a: AppSettingsModel)
    ensures
        spec_get(spec_save(m, a)).provider == a.provider,
        spec_get(spec_save(m, a)).doubao_api_key == if a.doubao_api_key is Some {
            a.doubao_api_key
        } else {
            spec_get(m).doubao_api_key
        },
        spec_get(spec_save(m, a)).zhipu_api_key == if a.zhipu_api_key is Some {
            a.zhipu_api_key
        } else {
            spec_get(m).zhipu_api_key
        },
        spec_get(spec_save(m, a)).zhipu_watermark == if a.zhipu_watermark is Some {
            a.zhipu_watermark
        } else {
            spec_get(m).zhipu_watermark
        },
        spec_get(spec_save(m, a)).theme == if a.theme is Some {
            a.theme
        } else {
            spec_get(m).theme
        },
{
    reveal_strlit("provider");
    reveal_strlit("doubao_api_key");
    reveal_strlit("zhipu_api_key");
    reveal_strlit("zhipu_watermark");
    reveal_strlit("theme");
    assert("provider"@.len() == 8);
    assert("doubao_api_key"@.len() == 14);
    assert("zhipu_api_key"@.len() == 13);
    assert("zhipu_watermark"@.len() == 15);
    assert("theme"@.len() == 5);
}

} // verus!
