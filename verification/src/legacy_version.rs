//! Legacy version files: foreign, plugin-owned marker files pinning a
//! version for one plugin.
//!
//! A marker is read into a single-plugin toolset tagged with its path.
//! The format is foreign-owned, so every mutating operation fails with
//! `UnsupportedOperation` and leaves the value untouched.

use vstd::prelude::*;

use crate::strutil;
use crate::toolset::{
    entries_get, ToolSource, ToolSourceV, Toolset, ToolVersion, ToolVersionType, ToolVersionV,
    TsEntryV,
};

verus! {

/// The kinds of configuration file this crate distinguishes.
#[derive(Debug, PartialEq, Eq, Structural)]
pub enum ConfigFileType {
    LegacyVersion,
}

/// Failure of a configuration-file operation.
#[derive(Debug, PartialEq, Eq, Structural)]
pub enum ConfigError {
    /// The operation is not supported for this source type.
    UnsupportedOperation,
}

/// The toolset entries a legacy marker produces: none for an empty
/// version string ("no preference"), else exactly one version for the
/// owning plugin.
pub open spec fn spec_legacy_entries(plugin: Seq<char>, version: Seq<char>) -> Seq<TsEntryV> {
    if version.len() == 0 {
        Seq::<TsEntryV>::empty()
    } else {
        seq![(plugin, seq![ToolVersionV { plugin, version }])]
    }
}

/// Build the single-entry toolset for a legacy marker at `path` owned
/// by `plugin`, requesting `version` (empty: no preference).
pub fn build_toolset(path: &str, plugin: &str, version: &str) -> (r: Toolset)
    ensures
        r@.source == ToolSourceV::LegacyVersionFile(path@),
        r@.versions == spec_legacy_entries(plugin@, version@),
{
    let mut toolset = Toolset::new(ToolSource::LegacyVersionFile(path.to_owned()));
    if !version.is_empty() {
        let tv = ToolVersion::new(
            plugin.to_owned(),
            ToolVersionType::Version(version.to_owned()),
        );
        assert(tv@ == (ToolVersionV { plugin: plugin@, version: version@ }));
        toolset.add_version(tv);
        proof {
            assert(toolset@.versions =~~= spec_legacy_entries(plugin@, version@));
        }
    } else {
        proof {
            assert(toolset@.versions =~~= spec_legacy_entries(plugin@, version@));
        }
    }
    toolset
}

/// One parsed legacy marker file: its path and the toolset it yields.
#[derive(Debug)]
pub struct LegacyVersionFile {
    pub path: String,
    pub toolset: Toolset,
}

impl LegacyVersionFile {
    /// Parse the raw text of the marker at `path`, owned by `plugin`:
    /// the version is the text with surrounding whitespace trimmed, and
    /// an empty result means "no preference", not an error.
    pub fn parse(path: String, plugin: &str, contents: &str) -> (r: Self)
        ensures
            r.path@ == path@,
            r.toolset@.source == ToolSourceV::LegacyVersionFile(path@),
            r.toolset@.versions == spec_legacy_entries(plugin@, strutil::spec_trim(contents@)),
    {
        let version = strutil::trim(contents);
        let toolset = build_toolset(path.as_str(), plugin, version.as_str());
        LegacyVersionFile { path, toolset }
    }

    /// This file's kind.
    pub fn get_type(&self) -> (r: ConfigFileType)
        ensures
            r == ConfigFileType::LegacyVersion,
    {
        ConfigFileType::LegacyVersion
    }

    /// The marker file's path.
    pub fn get_path(&self) -> (r: &String)
        ensures
            r@ == self.path@,
    {
        &self.path
    }

    /// A legacy marker declares no plugins of its own.
    pub fn plugins(&self) -> (r: Vec<(String, String)>)
        ensures
            r@.len() == 0,
    {
        Vec::new()
    }

    /// A legacy marker sets no environment variables.
    pub fn env(&self) -> (r: Vec<(String, String)>)
        ensures
            r@.len() == 0,
    {
        Vec::new()
    }

    /// A legacy marker contributes no search-path directories.
    pub fn path_dirs(&self) -> (r: Vec<String>)
        ensures
            r@.len() == 0,
    {
        Vec::new()
    }

    /// Removing a plugin is a mutation; the format is foreign-owned, so
    /// this always fails and changes nothing.
    pub fn remove_plugin(&mut self, _plugin_name: &str) -> (r: Result<(), ConfigError>)
        ensures
            r == Result::<(), ConfigError>::Err(ConfigError::UnsupportedOperation),
            *final(self) == *old(self),
    {
        Err(ConfigError::UnsupportedOperation)
    }

    /// Replacing versions is a mutation; the format is foreign-owned,
    /// so this always fails and changes nothing.
    pub fn replace_versions(&mut self, _plugin_name: &str, _versions: &Vec<String>) -> (r: Result<
        (),
        ConfigError,
    >)
        ensures
            r == Result::<(), ConfigError>::Err(ConfigError::UnsupportedOperation),
            *final(self) == *old(self),
    {
        Err(ConfigError::UnsupportedOperation)
    }

    /// Writing the file back always fails: the format is foreign-owned.
    pub fn save(&self) -> (r: Result<(), ConfigError>)
        ensures
            r == Result::<(), ConfigError>::Err(ConfigError::UnsupportedOperation),
    {
        Err(ConfigError::UnsupportedOperation)
    }

    /// Serializing the file always fails: the format is foreign-owned.
    pub fn dump(&self) -> (r: Result<String, ConfigError>)
        ensures
            r == Result::<String, ConfigError>::Err(ConfigError::UnsupportedOperation),
    {
        Err(ConfigError::UnsupportedOperation)
    }

    /// The toolset this marker yields.
    pub fn to_toolset(&self) -> (r: &Toolset)
        ensures
            r@ == self.toolset@,
    {
        &self.toolset
    }

    /// The files whose changes invalidate this source: the marker itself.
    pub fn watch_files(&self) -> (r: Vec<String>)
        ensures
            r@.len() == 1,
            r@[0]@ == self.path@,
    {
        let mut v: Vec<String> = Vec::new();
        v.push(self.path.clone());
        v
    }

    /// The file's description for diagnostics: its kind and path.
    pub fn describe(&self) -> (r: String)
        ensures
            r@ == "LegacyVersionFile("@ + self.path@ + ")"@,
    {
        let mut r: String = "LegacyVersionFile(".to_owned();
        r.append(self.path.as_str());
        r.append(")");
        proof {
            assert(r@ =~= "LegacyVersionFile("@ + self.path@ + ")"@);
        }
        r
    }
}

/// Round trip from a legacy marker into toolset resolution: a non-empty
/// trimmed version resolves the owning plugin to exactly that version,
/// and an empty one resolves it to nothing.
pub proof fn lemma_legacy_resolution(plugin: Seq<char>, version: Seq<char>)
    ensures
        version.len() > 0 ==> entries_get(spec_legacy_entries(plugin, version), plugin) == Some(
            seq![ToolVersionV { plugin, version }],
        ),
        version.len() == 0 ==> entries_get(spec_legacy_entries(plugin, version), plugin) is None,
{
    if version.len() > 0 {
        let entries = spec_legacy_entries(plugin, version);
        assert(entries[0].0 == plugin);
    }
}

} // verus!
