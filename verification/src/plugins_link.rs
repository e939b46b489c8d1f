//! Linking a local plugin checkout into the plugin directory: one
//! symlink from the checkout to a canonical plugin location, with the
//! plugin's name optionally inferred from the checkout's directory
//! name, and an existing entry overwritten only under force.

use vstd::prelude::*;

use crate::strutil;

verus! {

/// Failure of a plugin link operation.
#[derive(Debug)]
pub enum LinkError {
    /// A plugin of this name already exists and force was not given.
    AlreadyExists(String),
}

/// The request to symlink a plugin checkout into the plugin directory.
#[derive(Debug)]
pub struct PluginsLink {
    /// The plugin's name or, when no path is given, the checkout path
    /// the name is inferred from.
    pub name: String,
    /// The local path to the plugin checkout, if given separately.
    pub path: Option<String>,
    /// Overwrite an existing plugin of the same name.
    pub force: bool,
}

/// The planned link operation: optionally remove what stands at the
/// destination, then symlink `target` under `name`.
#[derive(Debug)]
pub struct LinkPlan {
    pub name: String,
    pub target: String,
    pub remove_existing: bool,
}

/// The plugin name a checkout path infers: the path's final segment
/// with the known foreign-tool prefixes stripped, `asdf-` first and
/// then `rtx-`.
pub open spec fn spec_name_from_path(path: Seq<char>) -> Seq<char> {
    strutil::spec_strip_prefix(
        strutil::spec_strip_prefix(strutil::spec_basename(path), "asdf-"@),
        "rtx-"@,
    )
}

/// The name the link uses: the given one when a path was given
/// separately, else the name inferred from the canonical checkout path.
pub open spec fn spec_link_name(name: Seq<char>, has_path: bool, canonical: Seq<char>) -> Seq<
    char,
> {
    if has_path {
        name
    } else {
        spec_name_from_path(canonical)
    }
}

/// Infer a plugin name from a checkout path, per `spec_name_from_path`.
pub fn get_name_from_path(path: &str) -> (r: String)
    ensures
        r@ == spec_name_from_path(path@),
{
    let base = strutil::basename(path);
    let s = strutil::strip_prefix(base.as_str(), "asdf-");
    strutil::strip_prefix(s.as_str(), "rtx-")
}

/// Where the link is created: the plugin directory joined with the
/// plugin's name.
pub fn link_destination(plugins_dir: &str, name: &str) -> (r: String)
    ensures
        r@ == plugins_dir@ + seq!['/'] + name@,
{
    strutil::join_path(plugins_dir, name)
}

impl PluginsLink {
    /// Decide the link operation, given the canonicalized checkout
    /// path and whether the destination already exists: an existing
    /// destination fails unless force is set, and force removes it
    /// before linking.
    pub fn plan(&self, canonical_path: &str, destination_exists: bool) -> (r: Result<
        LinkPlan,
        LinkError,
    >)
        ensures
            match r {
                Ok(p) => (!destination_exists || self.force) && p.name@ == spec_link_name(
                    self.name@,
                    self.path is Some,
                    canonical_path@,
                ) && p.target@ == canonical_path@ && p.remove_existing == destination_exists,
                Err(e) => destination_exists && !self.force && match e {
                    LinkError::AlreadyExists(n) => n@ == spec_link_name(
                        self.name@,
                        self.path is Some,
                        canonical_path@,
                    ),
                },
            },
    {
        let name = match &self.path {
            Some(_) => self.name.clone(),
            None => get_name_from_path(canonical_path),
        };
        if destination_exists && !self.force {
            return Err(LinkError::AlreadyExists(name));
        }
        Ok(
            LinkPlan {
                name,
                target: canonical_path.to_owned(),
                remove_existing: destination_exists,
            },
        )
    }
}

} // verus!
