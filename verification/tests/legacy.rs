use rtx_shims::legacy_version::{build_toolset, ConfigError, ConfigFileType, LegacyVersionFile};
use rtx_shims::toolset::{ToolSource, ToolVersionType};

#[test]
#[allow(unreachable_patterns)]
fn test_legacy_file() {
    let path = format!("{}/{}", "tiny-legacy", ".rtx-tiny-version");
    let cf = LegacyVersionFile::parse(path, "tiny", "2\n");
    let tvl = cf.to_toolset().get("tiny").unwrap();
    let version = match tvl.versions[0].vtype {
        ToolVersionType::Version(ref v) => v,
        _ => panic!("Unexpected version type"),
    };
    assert_eq!(version, "2");
}

#[test]
fn test_legacy_file_trims_whitespace() {
    let cf = LegacyVersionFile::parse(String::from(".rtx-tiny-version"), "tiny", "  2.1 \n");
    let tvl = cf.to_toolset().get("tiny").unwrap();
    assert_eq!(tvl.versions.len(), 1);
    let ToolVersionType::Version(ref v) = tvl.versions[0].vtype;
    assert_eq!(v, "2.1");
}

#[test]
fn test_legacy_file_empty_means_no_preference() {
    let cf = LegacyVersionFile::parse(String::from(".rtx-tiny-version"), "tiny", "\n  \n");
    assert!(cf.to_toolset().get("tiny").is_none());
}

#[test]
fn test_legacy_file_metadata() {
    let cf = LegacyVersionFile::parse(String::from("proj/.node-version"), "node", "18");
    assert_eq!(cf.get_type(), ConfigFileType::LegacyVersion);
    assert_eq!(cf.get_path(), "proj/.node-version");
    assert!(cf.plugins().is_empty());
    assert!(cf.env().is_empty());
    assert!(cf.path_dirs().is_empty());
    let watched = cf.watch_files();
    assert_eq!(watched.len(), 1);
    assert_eq!(watched[0], "proj/.node-version");
}

#[test]
fn test_legacy_file_mutations_fail_unsupported() {
    let mut cf = LegacyVersionFile::parse(String::from(".rtx-tiny-version"), "tiny", "2");
    assert!(matches!(
        cf.remove_plugin("tiny"),
        Err(ConfigError::UnsupportedOperation)
    ));
    assert!(matches!(
        cf.replace_versions("tiny", &vec![String::from("3")]),
        Err(ConfigError::UnsupportedOperation)
    ));
    assert!(matches!(cf.save(), Err(ConfigError::UnsupportedOperation)));
    assert!(matches!(cf.dump(), Err(ConfigError::UnsupportedOperation)));
    // The value is untouched: the toolset still requests exactly "2".
    let tvl = cf.to_toolset().get("tiny").unwrap();
    assert_eq!(tvl.versions.len(), 1);
    let ToolVersionType::Version(ref v) = tvl.versions[0].vtype;
    assert_eq!(v, "2");
}

#[test]
fn test_build_toolset_tags_source() {
    let ts = build_toolset("a/.rtx-tiny-version", "tiny", "2");
    match ts.source {
        ToolSource::LegacyVersionFile(ref p) => assert_eq!(p, "a/.rtx-tiny-version"),
        _ => panic!("wrong source"),
    }
    let tvl = ts.get("tiny").unwrap();
    assert_eq!(tvl.versions.len(), 1);
    assert_eq!(tvl.versions[0].plugin, "tiny");
}

#[test]
fn test_build_toolset_empty_version() {
    let ts = build_toolset("a/.rtx-tiny-version", "tiny", "");
    assert!(ts.get("tiny").is_none());
    assert!(ts.versions.is_empty());
}
