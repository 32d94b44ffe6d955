//! Server settings and their defaults.

use vstd::prelude::*;
use vstd::string::*;

use crate::text::{chars_eq, chars_of};

verus! {

/// A setting that the server knows: its key, its default value and whether
/// anyone may read it.
#[derive(Debug)]
pub struct SettingDefinition {
    pub key: String,
    pub default: Option<String>,
    pub public: Option<bool>,
}

impl Clone for SettingDefinition {
    fn clone(&self) -> (r: Self)
        ensures
            r == *self,
    {
        let default = match &self.default {
            Some(d) => Some(d.clone()),
            None => None,
        };
        SettingDefinition { key: self.key.clone(), default, public: self.public }
    }
}

/// A setting's stored value.
#[derive(Debug)]
pub struct DBSetting {
    pub id: i64,
    pub setting: SettingDefinition,
    pub value: String,
    pub updated: u64,
}

/// A request to change a setting's value.
#[derive(Debug)]
pub struct UpdateSettingRequest {
    pub value: String,
}

/// Why a setting could not be had.
#[derive(Debug)]
pub enum SettingError {
    /// The server knows no setting of that key.
    UnknownSetting,
}

/// The empty string: the value of a setting that has no default.
pub fn default_string() -> (r: String)
    ensures
        r@ == Seq::<char>::empty(),
{
    String::new()
}

/// The first known setting at or after `i` whose key is `key`.
pub open spec fn setting_from(known: Seq<SettingDefinition>, key: Seq<char>, i: int) -> Option<
    SettingDefinition,
>
    decreases known.len() - i,
{
    if i < 0 || i >= known.len() {
        None
    } else if known[i].key@ == key {
        Some(known[i])
    } else {
        setting_from(known, key, i + 1)
    }
}

/// The value of a setting that was never stored, as of `now`: id 0, its
/// default value or the empty string. Fails for a key that the server does
/// not know.
pub fn default_setting(known: &Vec<SettingDefinition>, key: &str, now: u64) -> (r: Result<
    DBSetting,
    SettingError,
>)
    ensures
        match setting_from(known@, key@, 0) {
            None => r matches Err(SettingError::UnknownSetting),
            Some(d) => r matches Ok(s) && s.id == 0 && s.setting == d && s.updated == now && (
            match d.default {
                Some(v) => s.value@ == v@,
                None => s.value@ == Seq::<char>::empty(),
            }),
        },
{
    let k = chars_of(key);
    let mut i: usize = 0;
    while i < known.len()
        invariant
            i <= known@.len(),
            k@ == key@,
            setting_from(known@, key@, 0) == setting_from(known@, key@, i as int),
        decreases known@.len() - i,
    {
        if chars_eq(&chars_of(known[i].key.as_str()), &k) {
            let setting = known[i].clone();
            let value = match &setting.default {
                Some(v) => v.clone(),
                None => default_string(),
            };
            return Ok(DBSetting { id: 0, setting, value, updated: now });
        }
        i = i + 1;
    }
    Err(SettingError::UnknownSetting)
}

} // verus!
