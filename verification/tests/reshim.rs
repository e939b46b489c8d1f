use rtx_shims::runtimes::{BinPath, RuntimeVersion};
use rtx_shims::shims::{
    make_shim, reshim, PluginShimDir, Settings, ShimContent, ShimEntry, ShimTarget,
};

fn strings(items: &[&str]) -> Vec<String> {
    items.iter().map(|s| s.to_string()).collect()
}

fn tiny_installed() -> Vec<RuntimeVersion> {
    vec![RuntimeVersion {
        plugin: "tiny".to_string(),
        version: "1".to_string(),
        bin_paths: vec![BinPath {
            dir: "/installs/tiny/1/bin".to_string(),
            bins: strings(&["tiny-cli"]),
        }],
    }]
}

fn on_settings() -> Settings {
    Settings {
        experimental: true,
        shims_dir: Some("/data/shims".to_string()),
    }
}

fn entries_equal(a: &[ShimEntry], b: &[ShimEntry]) -> bool {
    if a.len() != b.len() {
        return false;
    }
    for i in 0..a.len() {
        if a[i].name != b[i].name {
            return false;
        }
        let same = match (&a[i].content, &b[i].content) {
            (ShimContent::Symlink(x), ShimContent::Symlink(y)) => x == y,
            (ShimContent::Script(x), ShimContent::Script(y)) => x == y,
            _ => false,
        };
        if !same {
            return false;
        }
    }
    true
}

#[test]
fn test_reshim_noop_without_gates() {
    let installed = tiny_installed();
    let off = Settings {
        experimental: false,
        shims_dir: Some("/data/shims".to_string()),
    };
    assert!(reshim(&off, &installed, &Vec::new(), "/bin/rtx", "/data", "/fake").is_none());
    let unconfigured = Settings {
        experimental: true,
        shims_dir: None,
    };
    assert!(reshim(&unconfigured, &installed, &Vec::new(), "/bin/rtx", "/data", "/fake").is_none());
}

#[test]
fn test_reshim_symlinks_to_manager() {
    let plan = reshim(
        &on_settings(),
        &tiny_installed(),
        &Vec::new(),
        "/usr/local/bin/rtx",
        "/data",
        "/fake",
    )
    .unwrap();
    assert_eq!(plan.len(), 1);
    assert_eq!(plan[0].name, "tiny-cli");
    match &plan[0].content {
        ShimContent::Symlink(target) => assert_eq!(target, "/usr/local/bin/rtx"),
        ShimContent::Script(_) => panic!("expected a symlink to the manager"),
    }
}

#[test]
fn test_reshim_idempotent() {
    let installed = tiny_installed();
    let plugins = vec![PluginShimDir {
        entries: vec![ShimTarget {
            name: "tiny-wrap".to_string(),
            target: "/plugins/tiny/shims/tiny-wrap".to_string(),
        }],
    }];
    let settings = on_settings();
    let first = reshim(&settings, &installed, &plugins, "/bin/rtx", "/data", "/fake").unwrap();
    let second = reshim(&settings, &installed, &plugins, "/bin/rtx", "/data", "/fake").unwrap();
    assert!(entries_equal(&first, &second));
}

#[test]
fn test_make_shim_script_template() {
    let script = make_shim("/plugins/tiny/shims/tiny-wrap", "/data", "/fake");
    assert_eq!(
        script,
        "#!/bin/sh\nexport ASDF_DATA_DIR=/data\nexport PATH=\"/fake:$PATH\"\nrtx x -- /plugins/tiny/shims/tiny-wrap \"$@\"\n"
    );
}

#[test]
fn test_reshim_plugin_scripts() {
    let plugins = vec![PluginShimDir {
        entries: vec![ShimTarget {
            name: "tiny-wrap".to_string(),
            target: "/plugins/tiny/shims/tiny-wrap".to_string(),
        }],
    }];
    let plan = reshim(
        &on_settings(),
        &Vec::new(),
        &plugins,
        "/bin/rtx",
        "/data",
        "/fake",
    )
    .unwrap();
    assert_eq!(plan.len(), 1);
    assert_eq!(plan[0].name, "tiny-wrap");
    match &plan[0].content {
        ShimContent::Script(text) => {
            assert_eq!(
                text,
                &make_shim("/plugins/tiny/shims/tiny-wrap", "/data", "/fake")
            );
        }
        ShimContent::Symlink(_) => panic!("expected a generated script"),
    }
}
