use rtx_shims::plugins_link::{get_name_from_path, link_destination, LinkError, PluginsLink};

#[test]
fn test_plugin_link() {
    let cmd = PluginsLink {
        name: String::from("tiny-link"),
        path: Some(String::from("../data/plugins/tiny")),
        force: false,
    };
    let plan = cmd.plan("../data/plugins/tiny", false).unwrap();
    assert_eq!(plan.name, "tiny-link");
    assert_eq!(plan.target, "../data/plugins/tiny");
    assert!(!plan.remove_existing);
}

#[test]
fn test_plugin_link_infers_name() {
    let cmd = PluginsLink {
        name: String::from("./rtx-nodejs"),
        path: None,
        force: false,
    };
    let plan = cmd.plan("/home/dev/rtx-nodejs", false).unwrap();
    assert_eq!(plan.name, "nodejs");
    assert_eq!(plan.target, "/home/dev/rtx-nodejs");
}

#[test]
fn test_plugin_link_existing_needs_force() {
    let cmd = PluginsLink {
        name: String::from("tiny-link"),
        path: Some(String::from("../data/plugins/tiny")),
        force: false,
    };
    match cmd.plan("../data/plugins/tiny", true) {
        Err(LinkError::AlreadyExists(name)) => assert_eq!(name, "tiny-link"),
        Ok(_) => panic!("existing plugin must not be overwritten without force"),
    }
    let forced = PluginsLink {
        name: String::from("tiny-link"),
        path: Some(String::from("../data/plugins/tiny")),
        force: true,
    };
    let plan = forced.plan("../data/plugins/tiny", true).unwrap();
    assert!(plan.remove_existing);
}

#[test]
fn test_get_name_from_path_strips_prefixes() {
    assert_eq!(get_name_from_path("/checkouts/asdf-ruby"), "ruby");
    assert_eq!(get_name_from_path("/checkouts/rtx-node"), "node");
    assert_eq!(get_name_from_path("/checkouts/plain"), "plain");
    assert_eq!(get_name_from_path("tiny"), "tiny");
}

#[test]
fn test_link_destination_joins() {
    assert_eq!(
        link_destination("/data/plugins", "tiny"),
        "/data/plugins/tiny"
    );
}
