use vstd::prelude::*;

use crate::assets::{asset_text, decode_utf8_bytes, find_file, EmbeddedFile};

verus! {

#[verifier::external_type_specification]
#[verifier::external_body]
pub struct ExJsonValue(serde_json::Value);

#[verifier::external_type_specification]
#[verifier::external_body]
pub struct ExLenientError(serde_json_lenient::Error);

/// Whether `text` is JSON in the lenient dialect of settings files
/// (comments and trailing commas allowed).
pub uninterp spec fn parses_as_json(text: Seq<char>) -> bool;

/// Relies on serde_json_lenient::from_str: parses JSON with comments into a
/// value, and fails exactly on text that is not such JSON.
#[verifier::external_body]
fn parse_json_with_comments(content: &str) -> (r: Result<serde_json::Value, serde_json_lenient::Error>)
    ensures
        r.is_ok() == parses_as_json(content@),
{
    serde_json_lenient::from_str(content)
}

/// Relies on serde_json::Value::is_object: whether the value is a JSON object.
pub assume_specification[ serde_json::Value::is_object ](v: &serde_json::Value) -> bool;

/// Why a settings file was refused.
#[derive(Clone, Copy, Debug, PartialEq, Eq, Structural)]
pub enum SettingsError {
    /// The text is not JSON.
    InvalidJson,
    /// The text is JSON, but not an object.
    NotAnObject,
}

/// Names a type of setting.
#[derive(Clone, Copy, Debug, PartialEq, Eq, Hash, Structural)]
pub struct SettingKind(pub u64);

pub open spec fn setting_registered(kinds: Seq<SettingKind>, kind: SettingKind) -> bool {
    kinds.contains(kind)
}

/// The registered setting types after registering `kind`: appended when
/// new, unchanged when already registered.
pub open spec fn with_setting(kinds: Seq<SettingKind>, kind: SettingKind) -> Seq<SettingKind> {
    if kinds.contains(kind) {
        kinds
    } else {
        kinds.push(kind)
    }
}

/// Registering a setting type a second time leaves the registry as
/// registering it once did.
pub proof fn lemma_register_setting_idempotent(kinds: Seq<SettingKind>, kind: SettingKind)
    ensures
        with_setting(with_setting(kinds, kind), kind) == with_setting(kinds, kind),
{
    if !kinds.contains(kind) {
        assert(kinds.push(kind)[kinds.len() as int] == kind);
    }
}

/// The registry of setting types and the raw default and user settings
/// they are read from.
pub struct SettingsStore {
    pub setting_values: Vec<SettingKind>,
    pub raw_default_settings: serde_json::Value,
    pub raw_user_settings: serde_json::Value,
}

impl SettingsStore {
    /// No setting type is registered twice.
    pub open spec fn wf(&self) -> bool {
        self.setting_values@.no_duplicates()
    }

    /// An empty registry over the given raw settings.
    pub fn new(raw_default_settings: serde_json::Value, raw_user_settings: serde_json::Value) -> (r:
        SettingsStore)
        ensures
            r.setting_values@.len() == 0,
            r.wf(),
            r.raw_default_settings == raw_default_settings,
            r.raw_user_settings == raw_user_settings,
    {
        SettingsStore { setting_values: Vec::new(), raw_default_settings, raw_user_settings }
    }

    /// Adds setting type `kind`; returns whether it was new. Registering a
    /// type twice is the same as registering it once.
    pub fn register_setting(&mut self, kind: SettingKind) -> (r: bool)
        requires
            old(self).wf(),
        ensures
            final(self).wf(),
            r == !setting_registered(old(self).setting_values@, kind),
            final(self).setting_values@ == with_setting(old(self).setting_values@, kind),
            final(self).raw_default_settings == old(self).raw_default_settings,
            final(self).raw_user_settings == old(self).raw_user_settings,
    {
        let mut i: usize = 0;
        while i < self.setting_values.len()
            invariant
                i <= self.setting_values.len(),
                *self == *old(self),
                self.wf(),
                forall|k: int| 0 <= k < i ==> self.setting_values@[k] != kind,
            decreases self.setting_values.len() - i,
        {
            if self.setting_values[i] == kind {
                assert(self.setting_values@[i as int] == kind);
                return false;
            }
            i += 1;
        }
        let ghost before = self.setting_values@;
        self.setting_values.push(kind);
        proof {
            let after = self.setting_values@;
            assert forall|a: int, b: int| 0 <= a < after.len() && 0 <= b < after.len() && a != b
                implies after[a] != after[b] by {
                if a < before.len() && b < before.len() {
                    assert(after[a] == before[a] && after[b] == before[b]);
                } else if a < before.len() {
                    assert(after[a] == before[a]);
                } else {
                    assert(after[b] == before[b]);
                }
            }
        }
        true
    }

    /// Whether setting type `kind` is registered.
    pub fn is_registered(&self, kind: SettingKind) -> (r: bool)
        ensures
            r == setting_registered(self.setting_values@, kind),
    {
        let mut i: usize = 0;
        while i < self.setting_values.len()
            invariant
                i <= self.setting_values.len(),
                forall|k: int| 0 <= k < i ==> self.setting_values@[k] != kind,
            decreases self.setting_values.len() - i,
        {
            if self.setting_values[i] == kind {
                assert(self.setting_values@[i as int] == kind);
                return true;
            }
            i += 1;
        }
        false
    }

    /// Takes `settings` as the new default settings when it is a JSON object
    /// (`is_object`); otherwise refuses it and changes nothing.
    pub fn apply_default_settings(&mut self, settings: serde_json::Value, is_object: bool) -> (r:
        Result<(), SettingsError>)
        ensures
            is_object ==> r == Ok::<(), SettingsError>(()) && *final(self) == (SettingsStore {
                raw_default_settings: settings,
                ..*old(self)
            }),
            !is_object ==> r == Err::<(), SettingsError>(SettingsError::NotAnObject) && *final(self)
                == *old(self),
    {
        if is_object {
            self.raw_default_settings = settings;
            Ok(())
        } else {
            Err(SettingsError::NotAnObject)
        }
    }

    /// Takes `settings` as the new user settings when it is a JSON object
    /// (`is_object`); otherwise refuses it and changes nothing.
    pub fn apply_user_settings(&mut self, settings: serde_json::Value, is_object: bool) -> (r: Result<
        (),
        SettingsError,
    >)
        ensures
            is_object ==> r == Ok::<(), SettingsError>(()) && *final(self) == (SettingsStore {
                raw_user_settings: settings,
                ..*old(self)
            }),
            !is_object ==> r == Err::<(), SettingsError>(SettingsError::NotAnObject) && *final(self)
                == *old(self),
    {
        if is_object {
            self.raw_user_settings = settings;
            Ok(())
        } else {
            Err(SettingsError::NotAnObject)
        }
    }

    /// Replaces the default settings by `content`, which must be a JSON
    /// object; on an error nothing changes. Text that is not JSON is refused
    /// as such; whether parsed JSON is an object is serde_json's answer (see
    /// `apply_default_settings`).
    pub fn set_default_settings(&mut self, content: &str) -> (r: Result<(), SettingsError>)
        ensures
            r == Err::<(), SettingsError>(SettingsError::InvalidJson) <==> !parses_as_json(content@),
            r.is_err() ==> *final(self) == *old(self),
            final(self).setting_values@ == old(self).setting_values@,
            final(self).raw_user_settings == old(self).raw_user_settings,
    {
        match parse_json_with_comments(content) {
            Err(_) => Err(SettingsError::InvalidJson),
            Ok(settings) => {
                let is_object = settings.is_object();
                self.apply_default_settings(settings, is_object)
            },
        }
    }

    /// Replaces the user settings by `content`, which must be a JSON object;
    /// empty text stands for the empty object. On an error nothing changes.
    pub fn set_user_settings(&mut self, content: &str) -> (r: Result<(), SettingsError>)
        ensures
            content@.len() > 0 ==> (r == Err::<(), SettingsError>(SettingsError::InvalidJson)
                <==> !parses_as_json(content@)),
            content@.len() == 0 ==> (r == Err::<(), SettingsError>(SettingsError::InvalidJson)
                <==> !parses_as_json("{}"@)),
            r.is_err() ==> *final(self) == *old(self),
            final(self).setting_values@ == old(self).setting_values@,
            final(self).raw_default_settings == old(self).raw_default_settings,
    {
        let parsed = if content.unicode_len() == 0 {
            parse_json_with_comments("{}")
        } else {
            parse_json_with_comments(content)
        };
        match parsed {
            Err(_) => Err(SettingsError::InvalidJson),
            Ok(settings) => {
                let is_object = settings.is_object();
                self.apply_user_settings(settings, is_object)
            },
        }
    }
}

/// The setting values a type is loaded from: the defaults and, if present,
/// the user's customization.
pub struct SettingsSources<'a, T> {
    pub default: &'a T,
    pub user: Option<&'a T>,
}

impl<'a, T> SettingsSources<'a, T> {
    /// The user's customizations, least specific first.
    pub fn customizations(&self) -> (r: Vec<&'a T>)
        ensures
            r@ == match self.user {
                Some(u) => seq![u],
                None => Seq::empty(),
            },
    {
        let mut r: Vec<&'a T> = Vec::new();
        if let Some(u) = self.user {
            r.push(u);
        }
        r
    }

    /// The defaults followed by every customization: later ones win when
    /// they are merged.
    pub fn defaults_and_customizations(&self) -> (r: Vec<&'a T>)
        ensures
            r@ == seq![self.default] + match self.user {
                Some(u) => seq![u],
                None => Seq::empty(),
            },
    {
        let mut r: Vec<&'a T> = Vec::new();
        r.push(self.default);
        if let Some(u) = self.user {
            r.push(u);
        }
        r
    }
}

/// The embedded folder of settings and keymap files.
pub struct SettingsAssets {
    pub files: Vec<EmbeddedFile>,
}

/// The text of the embedded asset at `path`.
pub fn asset_str(assets: &SettingsAssets, path: &String) -> (r: Option<String>)
    ensures
        match r {
            Some(s) => asset_text(assets.files@, path@) == Some(s@),
            None => asset_text(assets.files@, path@) is None,
        },
{
    match find_file(&assets.files, path) {
        Some(i) => decode_utf8_bytes(assets.files[i].data.clone()),
        None => None,
    }
}

/// The text of the default settings file.
pub fn default_settings(assets: &SettingsAssets) -> (r: Option<String>)
    ensures
        match r {
            Some(s) => asset_text(assets.files@, "settings/default.json"@) == Some(s@),
            None => asset_text(assets.files@, "settings/default.json"@) is None,
        },
{
    asset_str(assets, &"settings/default.json".to_string())
}

/// The text of the user settings file.
pub fn user_settings(assets: &SettingsAssets) -> (r: Option<String>)
    ensures
        match r {
            Some(s) => asset_text(assets.files@, "settings/user.json"@) == Some(s@),
            None => asset_text(assets.files@, "settings/user.json"@) is None,
        },
{
    asset_str(assets, &"settings/user.json".to_string())
}

} // verus!
