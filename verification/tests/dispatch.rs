use rtx_shims::runtimes::{BinPath, RuntimeVersion};
use rtx_shims::shims::{
    err_no_version_set, handle_shim, which_shim, DispatchEnv, DispatchError, PathDir, ShimAction,
};
use rtx_shims::toolset::{ToolSource, Toolset, ToolVersion, ToolVersionType};

fn strings(items: &[&str]) -> Vec<String> {
    items.iter().map(|s| s.to_string()).collect()
}

fn rtv(plugin: &str, version: &str, dir: &str, bins: &[&str]) -> RuntimeVersion {
    RuntimeVersion {
        plugin: plugin.to_string(),
        version: version.to_string(),
        bin_paths: vec![BinPath {
            dir: dir.to_string(),
            bins: strings(bins),
        }],
    }
}

fn select(ts: &mut Toolset, plugin: &str, version: &str) {
    ts.add_version(ToolVersion::new(
        plugin.to_string(),
        ToolVersionType::Version(version.to_string()),
    ));
}

#[test]
fn test_dispatch_absent_name_is_not_a_shim() {
    let env = DispatchEnv {
        shim_entries: Some(strings(&["tiny-cli"])),
        installed: vec![rtv("tiny", "1", "/installs/tiny/1/bin", &["tiny-cli"])],
        path_dirs: Vec::new(),
    };
    let ts = Toolset::new(ToolSource::Default);
    match which_shim(&env, &ts, "absent") {
        Err(DispatchError::NotAShim(b)) => {
            assert_eq!(b, "absent");
        }
        other => panic!("expected NotAShim, got {:?}", other),
    }
    let e = which_shim(&env, &ts, "absent").unwrap_err();
    assert_eq!(e.message(), "absent is not a valid shim");
}

#[test]
fn test_dispatch_without_shim_directory_is_not_a_shim() {
    let env = DispatchEnv {
        shim_entries: None,
        installed: Vec::new(),
        path_dirs: Vec::new(),
    };
    let ts = Toolset::new(ToolSource::Default);
    assert!(matches!(
        which_shim(&env, &ts, "node"),
        Err(DispatchError::NotAShim(_))
    ));
}

#[test]
fn test_dispatch_no_version_selected_lists_candidates() {
    let env = DispatchEnv {
        shim_entries: Some(strings(&["tiny-cli"])),
        installed: vec![
            rtv("tiny", "1", "/installs/tiny/1/bin", &["tiny-cli"]),
            rtv("tiny", "2", "/installs/tiny/2/bin", &["tiny-cli"]),
            rtv("node", "18", "/installs/node/18/bin", &["node"]),
        ],
        path_dirs: Vec::new(),
    };
    let ts = Toolset::new(ToolSource::Default);
    match which_shim(&env, &ts, "tiny-cli") {
        Err(DispatchError::NoVersionSelected(b, cands)) => {
            assert_eq!(b, "tiny-cli");
            assert_eq!(
                cands,
                vec![
                    (String::from("tiny"), String::from("1")),
                    (String::from("tiny"), String::from("2")),
                ]
            );
        }
        other => panic!("expected NoVersionSelected, got {:?}", other),
    }
    let e = which_shim(&env, &ts, "tiny-cli").unwrap_err();
    assert_eq!(
        e.message(),
        "No version is set for shim: tiny-cli\nSet a global default version with one of the following:\nrtx global tiny@1\nrtx global tiny@2"
    );
}

#[test]
fn test_dispatch_selected_version_wins() {
    let env = DispatchEnv {
        shim_entries: Some(strings(&["tiny-cli"])),
        installed: vec![
            rtv("tiny", "1", "/installs/tiny/1/bin", &["tiny-cli"]),
            rtv("tiny", "2", "/installs/tiny/2/bin", &["tiny-cli"]),
        ],
        path_dirs: Vec::new(),
    };
    let mut ts = Toolset::new(ToolSource::Default);
    select(&mut ts, "tiny", "2");
    assert_eq!(
        which_shim(&env, &ts, "tiny-cli").unwrap(),
        "/installs/tiny/2/bin/tiny-cli"
    );
}

#[test]
fn test_dispatch_fallback_skips_shim_directory() {
    let env = DispatchEnv {
        shim_entries: Some(strings(&["node"])),
        installed: Vec::new(),
        path_dirs: vec![
            PathDir {
                path: "/data/shims".to_string(),
                is_shims_dir: true,
                bins: strings(&["node"]),
            },
            PathDir {
                path: "/usr/bin".to_string(),
                is_shims_dir: false,
                bins: strings(&["node"]),
            },
        ],
    };
    let ts = Toolset::new(ToolSource::Default);
    assert_eq!(which_shim(&env, &ts, "node").unwrap(), "/usr/bin/node");
}

#[test]
fn test_dispatch_only_shim_directory_match_fails() {
    // The binary exists only inside the shim directory itself: the
    // fallback must skip it rather than dispatch back into the shims.
    let env = DispatchEnv {
        shim_entries: Some(strings(&["node"])),
        installed: Vec::new(),
        path_dirs: vec![PathDir {
            path: "/data/shims".to_string(),
            is_shims_dir: true,
            bins: strings(&["node"]),
        }],
    };
    let ts = Toolset::new(ToolSource::Default);
    assert!(matches!(
        which_shim(&env, &ts, "node"),
        Err(DispatchError::NotAShim(_))
    ));
}

#[test]
fn test_handle_shim_forwards_arguments() {
    let env = DispatchEnv {
        shim_entries: Some(strings(&["tiny-cli"])),
        installed: vec![rtv("tiny", "1", "/installs/tiny/1/bin", &["tiny-cli"])],
        path_dirs: Vec::new(),
    };
    let mut ts = Toolset::new(ToolSource::Default);
    select(&mut ts, "tiny", "1");
    let args = strings(&["/data/shims/tiny-cli", "foo", "bar"]);
    match handle_shim(&args, true, &env, &ts).unwrap() {
        ShimAction::Exec(argv) => {
            assert_eq!(
                argv,
                strings(&["/installs/tiny/1/bin/tiny-cli", "foo", "bar"])
            );
        }
        ShimAction::Direct => panic!("expected a dispatch"),
    }
}

#[test]
fn test_handle_shim_as_manager_is_direct() {
    let env = DispatchEnv {
        shim_entries: None,
        installed: Vec::new(),
        path_dirs: Vec::new(),
    };
    let ts = Toolset::new(ToolSource::Default);
    let args = strings(&["/usr/local/bin/rtx", "exec"]);
    assert!(matches!(
        handle_shim(&args, true, &env, &ts).unwrap(),
        ShimAction::Direct
    ));
}

#[test]
fn test_handle_shim_without_experimental_is_direct() {
    let env = DispatchEnv {
        shim_entries: Some(strings(&["node"])),
        installed: Vec::new(),
        path_dirs: Vec::new(),
    };
    let ts = Toolset::new(ToolSource::Default);
    let args = strings(&["/data/shims/node"]);
    assert!(matches!(
        handle_shim(&args, false, &env, &ts).unwrap(),
        ShimAction::Direct
    ));
}

#[test]
fn test_err_no_version_set() {
    assert!(err_no_version_set("tiny-cli", Vec::new()).is_ok());
    let rtvs = vec![rtv("tiny", "1", "/installs/tiny/1/bin", &["tiny-cli"])];
    match err_no_version_set("tiny-cli", rtvs) {
        Err(DispatchError::NoVersionSelected(b, cands)) => {
            assert_eq!(b, "tiny-cli");
            assert_eq!(cands, vec![(String::from("tiny"), String::from("1"))]);
        }
        other => panic!("expected NoVersionSelected, got {:?}", other),
    }
}
