use rtx_shims::toolset::{build_from_sources, ToolSource, Toolset, ToolVersion, ToolVersionType};

fn request(plugin: &str, version: &str) -> ToolVersion {
    ToolVersion::new(
        plugin.to_string(),
        ToolVersionType::Version(version.to_string()),
    )
}

fn single(source: ToolSource, plugin: &str, version: &str) -> Toolset {
    let mut ts = Toolset::new(source);
    ts.add_version(request(plugin, version));
    ts
}

fn versions_of(ts: &Toolset, plugin: &str) -> Vec<String> {
    match ts.get(plugin) {
        None => Vec::new(),
        Some(tvl) => tvl
            .versions
            .iter()
            .map(|tv| {
                let ToolVersionType::Version(ref v) = tv.vtype;
                v.clone()
            })
            .collect(),
    }
}

#[test]
fn test_add_version_appends_in_order() {
    let mut ts = Toolset::new(ToolSource::Argument);
    ts.add_version(request("node", "18"));
    ts.add_version(request("node", "20"));
    ts.add_version(request("ruby", "3.2"));
    assert_eq!(versions_of(&ts, "node"), vec!["18", "20"]);
    assert_eq!(versions_of(&ts, "ruby"), vec!["3.2"]);
    assert_eq!(ts.versions.len(), 2);
}

#[test]
fn test_merge_nearer_nonempty_wins() {
    let mut near = single(ToolSource::EnvVar, "tiny", "1");
    let far = single(ToolSource::Default, "tiny", "2");
    near.merge(&far);
    assert_eq!(versions_of(&near, "tiny"), vec!["1"]);
}

#[test]
fn test_merge_precedence_regardless_of_far_order() {
    // The nearer source's version wins whatever the farther sources
    // hold and in whatever order they come.
    let far_a = single(ToolSource::Default, "tiny", "2");
    let far_b = single(ToolSource::EnvVar, "tiny", "3");

    let mut one = single(ToolSource::Argument, "tiny", "1");
    one.merge(&far_a);
    one.merge(&far_b);
    assert_eq!(versions_of(&one, "tiny"), vec!["1"]);

    let mut two = single(ToolSource::Argument, "tiny", "1");
    two.merge(&far_b);
    two.merge(&far_a);
    assert_eq!(versions_of(&two, "tiny"), vec!["1"]);
}

#[test]
fn test_merge_farther_supplies_unresolved() {
    let mut near = single(ToolSource::EnvVar, "tiny", "1");
    let far = single(ToolSource::Default, "node", "18");
    near.merge(&far);
    assert_eq!(versions_of(&near, "tiny"), vec!["1"]);
    assert_eq!(versions_of(&near, "node"), vec!["18"]);
}

#[test]
fn test_build_from_sources_nearest_first() {
    let near = single(
        ToolSource::LegacyVersionFile(String::from("a/.rtx-tiny-version")),
        "tiny",
        "2",
    );
    let far = single(ToolSource::ConfigFile(String::from("/etc/cfg")), "tiny", "9");
    let merged = build_from_sources(ToolSource::Default, &vec![near, far]);
    assert_eq!(versions_of(&merged, "tiny"), vec!["2"]);
}
