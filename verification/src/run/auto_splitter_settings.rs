//! The settings of an auto splitter, as the splits of a run hold them.

use vstd::prelude::*;

verus! {

/// The version of the format that the settings were written in.
#[derive(Clone, Copy, Debug, PartialEq, Eq, Structural)]
pub struct Version(pub u32, pub u32, pub u32, pub u32);

/// The value of a setting that an auto splitter defines.
#[derive(Clone, Debug, PartialEq, Eq)]
pub enum CustomValue {
    Bool(bool),
    I64(i64),
    String(String),
}

/// A setting that an auto splitter defines, under its key.
#[derive(Clone, Debug, PartialEq, Eq)]
pub struct CustomSetting {
    pub key: String,
    pub value: CustomValue,
}

/// The settings that an auto splitter defines, in the order in which it
/// defines them.
#[derive(Clone, Debug, PartialEq, Eq)]
pub struct SettingsMap {
    pub entries: Vec<CustomSetting>,
}

/// The settings of an auto splitter.
#[derive(Clone, Debug, PartialEq, Eq)]
pub struct AutoSplitterSettings {
    pub version: Version,
    pub script_path: String,
    pub custom_settings: SettingsMap,
}

impl Default for AutoSplitterSettings {
    fn default() -> (settings: Self)
        ensures
            settings.version == Version(0, 0, 0, 0),
            settings.script_path@ == Seq::<char>::empty(),
            settings.custom_settings.entries@ == Seq::<CustomSetting>::empty(),
    {
        AutoSplitterSettings {
            version: Version(0, 0, 0, 0),
            script_path: String::new(),
            custom_settings: SettingsMap { entries: Vec::new() },
        }
    }
}

impl AutoSplitterSettings {
    /// Sets the version, and nothing else.
    pub fn set_version(&mut self, version: Version)
        ensures
            final(self).version == version,
            final(self).script_path == old(self).script_path,
            final(self).custom_settings == old(self).custom_settings,
    {
        self.version = version;
    }

    /// Sets the path of the script, and nothing else.
    pub fn set_script_path(&mut self, script_path: String)
        ensures
            final(self).version == old(self).version,
            final(self).script_path == script_path,
            final(self).custom_settings == old(self).custom_settings,
    {
        self.script_path = script_path;
    }

    /// Sets the settings that the auto splitter defines, and nothing else.
    pub fn set_custom_settings(&mut self, custom_settings: SettingsMap)
        ensures
            final(self).version == old(self).version,
            final(self).script_path == old(self).script_path,
            final(self).custom_settings == custom_settings,
    {
        self.custom_settings = custom_settings;
    }
}

} // verus!
