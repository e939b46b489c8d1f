//! Shim dispatch and shim-directory regeneration.
//!
//! A shim is a dispatch entry named after an exposed binary. Dispatch
//! decides, for an invoked binary name, which installed version's
//! binary should run: the toolset-selected version first, then the
//! process search path (skipping the shim directory itself), and
//! otherwise a terminal error. Regeneration plans the full contents of
//! the shim directory from the installed state.
//!
//! Everything here is a decision over plain values; the host performs
//! the filesystem work the decisions call for.

use vstd::prelude::*;

use crate::runtimes::{
    has_name, lemma_has_name_view, spec_rtv_has_bin, spec_rtv_which, BinPath, BinPathV,
    RuntimeVersion, RuntimeVersionV,
};
use crate::strutil;
use crate::toolset::{entries_get, Toolset, ToolsetV, ToolVersionList, ToolVersionType, ToolVersionV};

verus! {

/// One directory of the process search path, as dispatch sees it: its
/// path, whether it canonicalizes to the shim directory, and the
/// binary names it holds.
#[derive(Debug)]
pub struct PathDir {
    pub path: String,
    pub is_shims_dir: bool,
    pub bins: Vec<String>,
}

/// Mathematical image of a `PathDir`.
pub struct PathDirV {
    pub path: Seq<char>,
    pub is_shims_dir: bool,
    pub bins: Seq<Seq<char>>,
}

impl View for PathDir {
    type V = PathDirV;

    open spec fn view(&self) -> PathDirV {
        PathDirV {
            path: self.path@,
            is_shims_dir: self.is_shims_dir,
            bins: self.bins@.map_values(|s: String| s@),
        }
    }
}

/// What dispatch reads of the world: the shim directory's entry names
/// (`None`: no shim directory), every installed version in discovery
/// order, and the process search path.
#[derive(Debug)]
pub struct DispatchEnv {
    pub shim_entries: Option<Vec<String>>,
    pub installed: Vec<RuntimeVersion>,
    pub path_dirs: Vec<PathDir>,
}

/// Mathematical image of a `DispatchEnv`.
pub struct DispatchEnvV {
    pub shim_entries: Option<Seq<Seq<char>>>,
    pub installed: Seq<RuntimeVersionV>,
    pub path_dirs: Seq<PathDirV>,
}

impl View for DispatchEnv {
    type V = DispatchEnvV;

    open spec fn view(&self) -> DispatchEnvV {
        DispatchEnvV {
            shim_entries: match self.shim_entries {
                Some(v) => Some(v@.map_values(|s: String| s@)),
                None => None,
            },
            installed: self.installed@.map_values(|r: RuntimeVersion| r@),
            path_dirs: self.path_dirs@.map_values(|d: PathDir| d@),
        }
    }
}

/// A terminal dispatch failure.
#[derive(Debug)]
pub enum DispatchError {
    /// The invoked name has no shim entry.
    NotAShim(String),
    /// A shim exists and installed versions export the name, but the
    /// toolset selects none of them; the candidates are every
    /// exporting `(plugin, version)`, in discovery order.
    NoVersionSelected(String, Vec<(String, String)>),
}

/// What a shim invocation should do.
#[derive(Debug)]
pub enum ShimAction {
    /// Not a shim invocation: continue as the manager itself.
    Direct,
    /// Replace the process with this argument vector: the resolved
    /// binary path followed by the original arguments.
    Exec(Vec<String>),
}

/// Outcome of the dispatch decision, at the view level.
pub enum DispatchResultV {
    Path(Seq<char>),
    NotAShim,
    NoVersionSelected(Seq<(Seq<char>, Seq<char>)>),
}

/// The plugin owning binary name `b`: the plugin of the first
/// installed version that exports `b`.
pub open spec fn spec_bin_owner(installed: Seq<RuntimeVersionV>, b: Seq<char>) -> Option<Seq<char>>
    decreases installed.len(),
{
    if installed.len() == 0 {
        None
    } else if spec_rtv_has_bin(installed[0], b) {
        Some(installed[0].plugin)
    } else {
        spec_bin_owner(installed.drop_first(), b)
    }
}

/// The first installed version matching `plugin` at `version`.
pub open spec fn spec_find_installed(
    installed: Seq<RuntimeVersionV>,
    plugin: Seq<char>,
    version: Seq<char>,
) -> Option<RuntimeVersionV>
    decreases installed.len(),
{
    if installed.len() == 0 {
        None
    } else if installed[0].plugin == plugin && installed[0].version == version {
        Some(installed[0])
    } else {
        spec_find_installed(installed.drop_first(), plugin, version)
    }
}

/// The installed version selected by a requested list: the first
/// requested version that is installed.
pub open spec fn spec_select_version(
    installed: Seq<RuntimeVersionV>,
    requested: Seq<ToolVersionV>,
) -> Option<RuntimeVersionV>
    decreases requested.len(),
{
    if requested.len() == 0 {
        None
    } else if spec_find_installed(installed, requested[0].plugin, requested[0].version) is Some {
        spec_find_installed(installed, requested[0].plugin, requested[0].version)
    } else {
        spec_select_version(installed, requested.drop_first())
    }
}

/// Toolset resolution of a binary name: map `b` to its owning plugin,
/// then to the installed version the toolset selects for that plugin.
pub open spec fn spec_resolve(
    ts: ToolsetV,
    installed: Seq<RuntimeVersionV>,
    b: Seq<char>,
) -> Option<RuntimeVersionV> {
    match spec_bin_owner(installed, b) {
        None => None,
        Some(plugin) => match entries_get(ts.versions, plugin) {
            None => None,
            Some(requested) => spec_select_version(installed, requested),
        },
    }
}

/// Search-path fallback: the first directory that does not
/// canonicalize to the shim directory and holds `b`, joined with `b`.
pub open spec fn spec_path_fallback(dirs: Seq<PathDirV>, b: Seq<char>) -> Option<Seq<char>>
    decreases dirs.len(),
{
    if dirs.len() == 0 {
        None
    } else if !dirs[0].is_shims_dir && has_name(dirs[0].bins, b) {
        Some(dirs[0].path + seq!['/'] + b)
    } else {
        spec_path_fallback(dirs.drop_first(), b)
    }
}

/// Every installed version exporting `b`, as `(plugin, version)`, in
/// discovery order, each exporting version exactly once.
pub open spec fn spec_candidates(installed: Seq<RuntimeVersionV>, b: Seq<char>) -> Seq<
    (Seq<char>, Seq<char>),
>
    decreases installed.len(),
{
    if installed.len() == 0 {
        Seq::<(Seq<char>, Seq<char>)>::empty()
    } else if spec_rtv_has_bin(installed.last(), b) {
        spec_candidates(installed.drop_last(), b).push(
            (installed.last().plugin, installed.last().version),
        )
    } else {
        spec_candidates(installed.drop_last(), b)
    }
}

/// The whole dispatch decision for binary name `b`.
pub open spec fn spec_which_shim(env: DispatchEnvV, ts: ToolsetV, b: Seq<char>) -> DispatchResultV {
    match env.shim_entries {
        None => DispatchResultV::NotAShim,
        Some(entries) => if !has_name(entries, b) {
            DispatchResultV::NotAShim
        } else {
            let direct = match spec_resolve(ts, env.installed, b) {
                Some(rtv) => spec_rtv_which(rtv.bin_paths, b),
                None => None,
            };
            match direct {
                Some(p) => DispatchResultV::Path(p),
                None => match spec_path_fallback(env.path_dirs, b) {
                    Some(p) => DispatchResultV::Path(p),
                    None => {
                        let cands = spec_candidates(env.installed, b);
                        if cands.len() > 0 {
                            DispatchResultV::NoVersionSelected(cands)
                        } else {
                            DispatchResultV::NotAShim
                        }
                    },
                },
            }
        },
    }
}

fn bin_owner(installed: &Vec<RuntimeVersion>, b: &str) -> (r: Option<usize>)
    ensures
        match r {
            Some(i) => 0 <= i < installed@.len() && spec_bin_owner(
                installed@.map_values(|v: RuntimeVersion| v@),
                b@,
            ) == Some(installed@[i as int]@.plugin),
            None => spec_bin_owner(installed@.map_values(|v: RuntimeVersion| v@), b@) is None,
        },
{
    let ghost iv = installed@.map_values(|v: RuntimeVersion| v@);
    proof {
        assert(iv.subrange(0, iv.len() as int) =~= iv);
    }
    let mut i: usize = 0;
    while i < installed.len()
        invariant
            0 <= i <= installed@.len(),
            iv == installed@.map_values(|v: RuntimeVersion| v@),
            iv.len() == installed@.len(),
            spec_bin_owner(iv, b@) == spec_bin_owner(iv.subrange(i as int, iv.len() as int), b@),
        decreases installed@.len() - i,
    {
        let ghost suf = iv.subrange(i as int, iv.len() as int);
        proof {
            assert(suf[0] == iv[i as int]);
            assert(iv[i as int] == installed@[i as int]@);
            assert(suf.drop_first() =~= iv.subrange(i + 1, iv.len() as int));
        }
        if installed[i].has_bin(b) {
            return Some(i);
        }
        i += 1;
    }
    proof {
        assert(iv.subrange(iv.len() as int, iv.len() as int) =~= Seq::<RuntimeVersionV>::empty());
    }
    None
}

fn find_installed(installed: &Vec<RuntimeVersion>, plugin: &str, version: &str) -> (r: Option<
    usize,
>)
    ensures
        match r {
            Some(i) => 0 <= i < installed@.len() && spec_find_installed(
                installed@.map_values(|v: RuntimeVersion| v@),
                plugin@,
                version@,
            ) == Some(installed@[i as int]@),
            None => spec_find_installed(
                installed@.map_values(|v: RuntimeVersion| v@),
                plugin@,
                version@,
            ) is None,
        },
{
    let ghost iv = installed@.map_values(|v: RuntimeVersion| v@);
    proof {
        assert(iv.subrange(0, iv.len() as int) =~= iv);
    }
    let mut i: usize = 0;
    while i < installed.len()
        invariant
            0 <= i <= installed@.len(),
            iv == installed@.map_values(|v: RuntimeVersion| v@),
            iv.len() == installed@.len(),
            spec_find_installed(iv, plugin@, version@) == spec_find_installed(
                iv.subrange(i as int, iv.len() as int),
                plugin@,
                version@,
            ),
        decreases installed@.len() - i,
    {
        let ghost suf = iv.subrange(i as int, iv.len() as int);
        proof {
            assert(suf[0] == iv[i as int]);
            assert(iv[i as int] == installed@[i as int]@);
            assert(suf.drop_first() =~= iv.subrange(i + 1, iv.len() as int));
        }
        let rtv = &installed[i];
        if strutil::str_eq(rtv.plugin.as_str(), plugin) && strutil::str_eq(
            rtv.version.as_str(),
            version,
        ) {
            return Some(i);
        }
        i += 1;
    }
    proof {
        assert(iv.subrange(iv.len() as int, iv.len() as int) =~= Seq::<RuntimeVersionV>::empty());
    }
    None
}

fn select_version(installed: &Vec<RuntimeVersion>, requested: &ToolVersionList) -> (r: Option<
    usize,
>)
    ensures
        match r {
            Some(i) => 0 <= i < installed@.len() && spec_select_version(
                installed@.map_values(|v: RuntimeVersion| v@),
                requested@,
            ) == Some(installed@[i as int]@),
            None => spec_select_version(
                installed@.map_values(|v: RuntimeVersion| v@),
                requested@,
            ) is None,
        },
{
    let ghost iv = installed@.map_values(|v: RuntimeVersion| v@);
    let ghost rv = requested@;
    proof {
        assert(rv.subrange(0, rv.len() as int) =~= rv);
    }
    let mut j: usize = 0;
    while j < requested.versions.len()
        invariant
            0 <= j <= requested.versions@.len(),
            iv == installed@.map_values(|v: RuntimeVersion| v@),
            rv == requested@,
            rv.len() == requested.versions@.len(),
            spec_select_version(iv, rv) == spec_select_version(
                iv,
                rv.subrange(j as int, rv.len() as int),
            ),
        decreases requested.versions@.len() - j,
    {
        let ghost suf = rv.subrange(j as int, rv.len() as int);
        proof {
            assert(suf[0] == rv[j as int]);
            assert(rv[j as int] == requested.versions@[j as int]@);
            assert(suf.drop_first() =~= rv.subrange(j + 1, rv.len() as int));
        }
        let tv = &requested.versions[j];
        let version = match &tv.vtype {
            ToolVersionType::Version(v) => v,
        };
        match find_installed(installed, tv.plugin.as_str(), version.as_str()) {
            Some(i) => {
                return Some(i);
            },
            None => {},
        }
        j += 1;
    }
    proof {
        assert(rv.subrange(rv.len() as int, rv.len() as int) =~= Seq::<ToolVersionV>::empty());
    }
    None
}

fn resolve(ts: &Toolset, installed: &Vec<RuntimeVersion>, b: &str) -> (r: Option<usize>)
    ensures
        match r {
            Some(i) => 0 <= i < installed@.len() && spec_resolve(
                ts@,
                installed@.map_values(|v: RuntimeVersion| v@),
                b@,
            ) == Some(installed@[i as int]@),
            None => spec_resolve(ts@, installed@.map_values(|v: RuntimeVersion| v@), b@) is None,
        },
{
    match bin_owner(installed, b) {
        None => None,
        Some(oi) => {
            let plugin = &installed[oi].plugin;
            match ts.get(plugin.as_str()) {
                None => None,
                Some(requested) => select_version(installed, requested),
            }
        },
    }
}

fn path_fallback(dirs: &Vec<PathDir>, b: &str) -> (r: Option<String>)
    ensures
        match r {
            Some(p) => spec_path_fallback(dirs@.map_values(|d: PathDir| d@), b@) == Some(p@),
            None => spec_path_fallback(dirs@.map_values(|d: PathDir| d@), b@) is None,
        },
{
    let ghost dv = dirs@.map_values(|d: PathDir| d@);
    proof {
        assert(dv.subrange(0, dv.len() as int) =~= dv);
    }
    let mut i: usize = 0;
    while i < dirs.len()
        invariant
            0 <= i <= dirs@.len(),
            dv == dirs@.map_values(|d: PathDir| d@),
            dv.len() == dirs@.len(),
            spec_path_fallback(dv, b@) == spec_path_fallback(
                dv.subrange(i as int, dv.len() as int),
                b@,
            ),
        decreases dirs@.len() - i,
    {
        let ghost suf = dv.subrange(i as int, dv.len() as int);
        proof {
            assert(suf[0] == dv[i as int]);
            assert(dv[i as int] == dirs@[i as int]@);
            assert(suf.drop_first() =~= dv.subrange(i + 1, dv.len() as int));
            lemma_has_name_view(dirs@[i as int].bins@, b@);
        }
        let d = &dirs[i];
        if !d.is_shims_dir && strutil::vec_contains_str(&d.bins, b) {
            return Some(strutil::join_path(d.path.as_str(), b));
        }
        i += 1;
    }
    proof {
        assert(dv.subrange(dv.len() as int, dv.len() as int) =~= Seq::<PathDirV>::empty());
    }
    None
}

fn candidates(installed: &Vec<RuntimeVersion>, b: &str) -> (r: Vec<(String, String)>)
    ensures
        r@.map_values(|c: (String, String)| (c.0@, c.1@)) == spec_candidates(
            installed@.map_values(|v: RuntimeVersion| v@),
            b@,
        ),
{
    let ghost iv = installed@.map_values(|v: RuntimeVersion| v@);
    let mut out: Vec<(String, String)> = Vec::new();
    proof {
        assert(iv.subrange(0, 0) =~= Seq::<RuntimeVersionV>::empty());
        assert(out@.map_values(|c: (String, String)| (c.0@, c.1@)) =~= spec_candidates(
            iv.subrange(0, 0),
            b@,
        ));
    }
    let mut i: usize = 0;
    while i < installed.len()
        invariant
            0 <= i <= installed@.len(),
            iv == installed@.map_values(|v: RuntimeVersion| v@),
            iv.len() == installed@.len(),
            out@.map_values(|c: (String, String)| (c.0@, c.1@)) == spec_candidates(
                iv.subrange(0, i as int),
                b@,
            ),
        decreases installed@.len() - i,
    {
        let ghost pre = iv.subrange(0, i + 1);
        proof {
            assert(pre.drop_last() =~= iv.subrange(0, i as int));
            assert(pre.last() == iv[i as int]);
            assert(iv[i as int] == installed@[i as int]@);
        }
        let rtv = &installed[i];
        if rtv.has_bin(b) {
            out.push((rtv.plugin.clone(), rtv.version.clone()));
            proof {
                assert(out@.map_values(|c: (String, String)| (c.0@, c.1@)) =~~= spec_candidates(
                    iv.subrange(0, i + 1),
                    b@,
                ));
            }
        } else {
            proof {
                assert(out@.map_values(|c: (String, String)| (c.0@, c.1@)) == spec_candidates(
                    iv.subrange(0, i + 1),
                    b@,
                ));
            }
        }
        i += 1;
    }
    proof {
        assert(iv.subrange(0, iv.len() as int) =~= iv);
    }
    out
}

/// Decide where the shim invocation of `bin_name` should dispatch, per
/// `spec_which_shim`: `Ok` is the binary path to run; `NotAShim` comes
/// exactly when no shim directory or no shim entry for `bin_name`
/// exists, or nothing at all resolves it; `NoVersionSelected` lists
/// every installed exporter when the toolset selects none of them.
pub fn which_shim(env: &DispatchEnv, ts: &Toolset, bin_name: &str) -> (r: Result<
    String,
    DispatchError,
>)
    ensures
        match r {
            Ok(p) => spec_which_shim(env@, ts@, bin_name@) == DispatchResultV::Path(p@),
            Err(e) => match e {
                DispatchError::NotAShim(b) => b@ == bin_name@ && spec_which_shim(
                    env@,
                    ts@,
                    bin_name@,
                ) == DispatchResultV::NotAShim,
                DispatchError::NoVersionSelected(b, cands) => b@ == bin_name@ && spec_which_shim(
                    env@,
                    ts@,
                    bin_name@,
                ) == DispatchResultV::NoVersionSelected(
                    cands@.map_values(|c: (String, String)| (c.0@, c.1@)),
                ),
            },
        },
{
    match &env.shim_entries {
        None => Err(DispatchError::NotAShim(bin_name.to_owned())),
        Some(entries) => {
            proof {
                lemma_has_name_view(entries@, bin_name@);
            }
            if !strutil::vec_contains_str(entries, bin_name) {
                return Err(DispatchError::NotAShim(bin_name.to_owned()));
            }
            let direct: Option<String> = match resolve(ts, &env.installed, bin_name) {
                Some(i) => env.installed[i].which(bin_name),
                None => None,
            };
            match direct {
                Some(p) => Ok(p),
                None => match path_fallback(&env.path_dirs, bin_name) {
                    Some(p) => Ok(p),
                    None => {
                        let cands = candidates(&env.installed, bin_name);
                        if cands.len() > 0 {
                            Err(DispatchError::NoVersionSelected(bin_name.to_owned(), cands))
                        } else {
                            Err(DispatchError::NotAShim(bin_name.to_owned()))
                        }
                    },
                },
            }
        },
    }
}

/// Decide what a process invocation does: invoked as the manager
/// itself (base name `rtx`), or without the experimental flag, it
/// continues directly; otherwise it dispatches the invoked base name
/// and, on success, yields the argument vector to execute — the
/// resolved path followed by the original arguments, unchanged.
pub fn handle_shim(args: &Vec<String>, experimental: bool, env: &DispatchEnv, ts: &Toolset) -> (r:
    Result<ShimAction, DispatchError>)
    requires
        args@.len() > 0,
    ensures
        ({
            let bin = strutil::spec_basename(args@[0]@);
            if bin == "rtx"@ || !experimental {
                r matches Ok(a) && a is Direct
            } else {
                match r {
                    Ok(a) => match a {
                        ShimAction::Direct => false,
                        ShimAction::Exec(argv) => argv@.len() == args@.len() && spec_which_shim(
                            env@,
                            ts@,
                            bin,
                        ) == DispatchResultV::Path(argv@[0]@) && forall|k: int|
                            1 <= k < args@.len() ==> argv@[k]@ == args@[k]@,
                    },
                    Err(e) => match e {
                        DispatchError::NotAShim(b) => b@ == bin && spec_which_shim(env@, ts@, bin)
                            == DispatchResultV::NotAShim,
                        DispatchError::NoVersionSelected(b, cands) => b@ == bin && spec_which_shim(
                            env@,
                            ts@,
                            bin,
                        ) == DispatchResultV::NoVersionSelected(
                            cands@.map_values(|c: (String, String)| (c.0@, c.1@)),
                        ),
                    },
                }
            }
        }),
{
    let bin_name = strutil::basename(args[0].as_str());
    if strutil::str_eq(bin_name.as_str(), "rtx") || !experimental {
        return Ok(ShimAction::Direct);
    }
    match which_shim(env, ts, bin_name.as_str()) {
        Ok(p) => {
            let ghost pv = p@;
            let mut argv: Vec<String> = Vec::new();
            argv.push(p);
            let mut i: usize = 1;
            while i < args.len()
                invariant
                    1 <= i <= args@.len(),
                    argv@.len() == i,
                    argv@[0]@ == pv,
                    forall|k: int| 1 <= k < i ==> argv@[k]@ == args@[k]@,
                decreases args@.len() - i,
            {
                argv.push(args[i].clone());
                i += 1;
            }
            Ok(ShimAction::Exec(argv))
        },
        Err(e) => Err(e),
    }
}

/// One suggestion line per candidate: `rtx global <plugin>@<version>`,
/// each terminated by a newline, in candidate order.
pub open spec fn spec_suggestion_lines(cands: Seq<(Seq<char>, Seq<char>)>) -> Seq<char>
    decreases cands.len(),
{
    if cands.len() == 0 {
        Seq::<char>::empty()
    } else {
        spec_suggestion_lines(cands.drop_last()) + "rtx global "@ + cands.last().0 + seq!['@']
            + cands.last().1 + seq!['\n']
    }
}

/// The full "no version selected" message, before trimming.
pub open spec fn spec_no_version_msg(bin: Seq<char>, cands: Seq<(Seq<char>, Seq<char>)>) -> Seq<
    char,
> {
    "No version is set for shim: "@ + bin + seq!['\n']
        + "Set a global default version with one of the following:\n"@ + spec_suggestion_lines(
        cands,
    )
}

/// The user-facing "no version selected" message for `bin_name` and
/// its candidates: one suggestion line per candidate, surrounding
/// whitespace trimmed.
pub fn no_version_set_message(bin_name: &str, cands: &Vec<(String, String)>) -> (r: String)
    ensures
        r@ == strutil::spec_trim(
            spec_no_version_msg(bin_name@, cands@.map_values(|c: (String, String)| (c.0@, c.1@))),
        ),
{
    let ghost cv = cands@.map_values(|c: (String, String)| (c.0@, c.1@));
    proof {
        reveal_strlit("\n");
        reveal_strlit("@");
        assert("\n"@ =~= seq!['\n']);
        assert("@"@ =~= seq!['@']);
    }
    let mut msg: String = "No version is set for shim: ".to_owned();
    msg.append(bin_name);
    msg.append("\n");
    msg.append("Set a global default version with one of the following:\n");
    proof {
        assert(cv.subrange(0, 0) =~= Seq::<(Seq<char>, Seq<char>)>::empty());
        assert(msg@ =~= spec_no_version_msg(bin_name@, cv.subrange(0, 0)));
    }
    let mut i: usize = 0;
    while i < cands.len()
        invariant
            0 <= i <= cands@.len(),
            cv == cands@.map_values(|c: (String, String)| (c.0@, c.1@)),
            cv.len() == cands@.len(),
            "\n"@ == seq!['\n'],
            "@"@ == seq!['@'],
            msg@ == spec_no_version_msg(bin_name@, cv.subrange(0, i as int)),
        decreases cands@.len() - i,
    {
        let c = &cands[i];
        msg.append("rtx global ");
        msg.append(c.0.as_str());
        msg.append("@");
        msg.append(c.1.as_str());
        msg.append("\n");
        proof {
            assert(cv.subrange(0, i + 1).drop_last() =~= cv.subrange(0, i as int));
            assert(cv.subrange(0, i + 1).last() == cv[i as int]);
            assert(cv[i as int] == (cands@[i as int].0@, cands@[i as int].1@));
            assert(msg@ =~= spec_no_version_msg(bin_name@, cv.subrange(0, i + 1)));
        }
        i += 1;
    }
    proof {
        assert(cv.subrange(0, cv.len() as int) =~= cv);
    }
    strutil::trim(msg.as_str())
}

impl DispatchError {
    /// The error's user-facing text.
    pub fn message(&self) -> (r: String)
        ensures
            match self {
                DispatchError::NotAShim(b) => r@ == b@ + " is not a valid shim"@,
                DispatchError::NoVersionSelected(b, cands) => r@ == strutil::spec_trim(
                    spec_no_version_msg(
                        b@,
                        cands@.map_values(|c: (String, String)| (c.0@, c.1@)),
                    ),
                ),
            },
    {
        match self {
            DispatchError::NotAShim(b) => {
                let mut m = b.clone();
                m.append(" is not a valid shim");
                m
            },
            DispatchError::NoVersionSelected(b, cands) => no_version_set_message(
                b.as_str(),
                cands,
            ),
        }
    }
}

/// Turn the installed versions exporting a binary into the terminal
/// "no version selected" outcome: no error when none export it, else
/// the error listing each exporter as `(plugin, version)` in order.
pub fn err_no_version_set(bin_name: &str, rtvs: Vec<RuntimeVersion>) -> (r: Result<
    (),
    DispatchError,
>)
    ensures
        rtvs@.len() == 0 ==> r is Ok,
        rtvs@.len() > 0 ==> match r {
            Ok(_) => false,
            Err(e) => match e {
                DispatchError::NotAShim(_) => false,
                DispatchError::NoVersionSelected(b, cands) => b@ == bin_name@ && cands@.map_values(
                    |c: (String, String)| (c.0@, c.1@),
                ) == rtvs@.map_values(|v: RuntimeVersion| (v.plugin@, v.version@)),
            },
        },
{
    if rtvs.len() == 0 {
        return Ok(());
    }
    let ghost rv = rtvs@.map_values(|v: RuntimeVersion| (v.plugin@, v.version@));
    let mut cands: Vec<(String, String)> = Vec::new();
    let mut i: usize = 0;
    while i < rtvs.len()
        invariant
            0 <= i <= rtvs@.len(),
            rv == rtvs@.map_values(|v: RuntimeVersion| (v.plugin@, v.version@)),
            rv.len() == rtvs@.len(),
            cands@.map_values(|c: (String, String)| (c.0@, c.1@)) =~= rv.subrange(0, i as int),
        decreases rtvs@.len() - i,
    {
        let rtv = &rtvs[i];
        let ghost prev = cands@.map_values(|c: (String, String)| (c.0@, c.1@));
        cands.push((rtv.plugin.clone(), rtv.version.clone()));
        proof {
            assert(rv.subrange(0, i + 1).drop_last() =~= rv.subrange(0, i as int));
            assert(rv.subrange(0, i + 1).last() == rv[i as int]);
            assert(rv[i as int] == (rtvs@[i as int].plugin@, rtvs@[i as int].version@));
            assert(cands@.map_values(|c: (String, String)| (c.0@, c.1@)) =~= prev.push(
                rv[i as int],
            ));
            assert(prev.push(rv[i as int]) =~= rv.subrange(0, i + 1));
        }
        i += 1;
    }
    proof {
        assert(rv.subrange(0, rv.len() as int) =~= rv);
    }
    Err(DispatchError::NoVersionSelected(bin_name.to_owned(), cands))
}

/// Feature gates for shim behavior: the experimental flag and the
/// configured shim directory, if any. Either one absent makes every
/// shim operation a no-op.
#[derive(Debug)]
pub struct Settings {
    pub experimental: bool,
    pub shims_dir: Option<String>,
}

/// One plugin-authored entry of a plugin's bundled `shims/` directory:
/// the entry's base name and its original target path.
#[derive(Debug)]
pub struct ShimTarget {
    pub name: String,
    pub target: String,
}

/// The bundled `shims/` directory of one configured external plugin.
#[derive(Debug)]
pub struct PluginShimDir {
    pub entries: Vec<ShimTarget>,
}

/// What a shim directory entry should contain: a symlink to the
/// manager's own executable, or a generated wrapper script.
#[derive(Debug)]
pub enum ShimContent {
    Symlink(String),
    Script(String),
}

/// One planned shim directory entry.
#[derive(Debug)]
pub struct ShimEntry {
    pub name: String,
    pub content: ShimContent,
}

/// Mathematical image of a `ShimTarget`.
pub struct ShimTargetV {
    pub name: Seq<char>,
    pub target: Seq<char>,
}

/// Mathematical image of a `PluginShimDir`.
pub struct PluginShimDirV {
    pub entries: Seq<ShimTargetV>,
}

/// Mathematical image of a `ShimContent`.
pub enum ShimContentV {
    Symlink(Seq<char>),
    Script(Seq<char>),
}

/// Mathematical image of a `ShimEntry`.
pub struct ShimEntryV {
    pub name: Seq<char>,
    pub content: ShimContentV,
}

impl View for ShimTarget {
    type V = ShimTargetV;

    open spec fn view(&self) -> ShimTargetV {
        ShimTargetV { name: self.name@, target: self.target@ }
    }
}

impl View for PluginShimDir {
    type V = PluginShimDirV;

    open spec fn view(&self) -> PluginShimDirV {
        PluginShimDirV { entries: self.entries@.map_values(|t: ShimTarget| t@) }
    }
}

impl View for ShimContent {
    type V = ShimContentV;

    open spec fn view(&self) -> ShimContentV {
        match self {
            ShimContent::Symlink(p) => ShimContentV::Symlink(p@),
            ShimContent::Script(s) => ShimContentV::Script(s@),
        }
    }
}

impl View for ShimEntry {
    type V = ShimEntryV;

    open spec fn view(&self) -> ShimEntryV {
        ShimEntryV { name: self.name@, content: self.content@ }
    }
}

/// The view of a planned entry list.
pub open spec fn plan_view(s: Seq<ShimEntry>) -> Seq<ShimEntryV> {
    s.map_values(|e: ShimEntry| e@)
}

/// The wrapper script generated for a plugin-authored shim: exports
/// the foreign-compatibility data root, prepends the stand-in
/// directory to the search path, and direct-executes the manager
/// against the original target, forwarding all arguments.
pub open spec fn spec_script_text(
    data_dir: Seq<char>,
    fake_asdf_dir: Seq<char>,
    target: Seq<char>,
) -> Seq<char> {
    "#!/bin/sh\nexport ASDF_DATA_DIR="@ + data_dir + "\nexport PATH=\""@ + fake_asdf_dir
        + ":$PATH\"\nrtx x -- "@ + target + " \"$@\"\n"@
}

/// The wrapper script text for one plugin-authored shim target.
pub fn make_shim(target: &str, data_dir: &str, fake_asdf_dir: &str) -> (r: String)
    ensures
        r@ == spec_script_text(data_dir@, fake_asdf_dir@, target@),
{
    let mut r: String = "#!/bin/sh\nexport ASDF_DATA_DIR=".to_owned();
    r.append(data_dir);
    r.append("\nexport PATH=\"");
    r.append(fake_asdf_dir);
    r.append(":$PATH\"\nrtx x -- ");
    r.append(target);
    r.append(" \"$@\"\n");
    proof {
        assert(r@ =~= spec_script_text(data_dir@, fake_asdf_dir@, target@));
    }
    r
}

/// Symlink entries for the binary names of one directory, in order.
pub open spec fn spec_symlink_entries_bins(bins: Seq<Seq<char>>, rtx_bin: Seq<char>) -> Seq<
    ShimEntryV,
>
    decreases bins.len(),
{
    if bins.len() == 0 {
        Seq::<ShimEntryV>::empty()
    } else {
        spec_symlink_entries_bins(bins.drop_last(), rtx_bin).push(
            ShimEntryV { name: bins.last(), content: ShimContentV::Symlink(rtx_bin) },
        )
    }
}

/// Symlink entries for all binary directories of one installed
/// version, in order.
pub open spec fn spec_symlink_entries_paths(paths: Seq<BinPathV>, rtx_bin: Seq<char>) -> Seq<
    ShimEntryV,
>
    decreases paths.len(),
{
    if paths.len() == 0 {
        Seq::<ShimEntryV>::empty()
    } else {
        spec_symlink_entries_paths(paths.drop_last(), rtx_bin) + spec_symlink_entries_bins(
            paths.last().bins,
            rtx_bin,
        )
    }
}

/// Symlink entries for every installed version, in discovery order.
pub open spec fn spec_symlink_entries(installed: Seq<RuntimeVersionV>, rtx_bin: Seq<char>) -> Seq<
    ShimEntryV,
>
    decreases installed.len(),
{
    if installed.len() == 0 {
        Seq::<ShimEntryV>::empty()
    } else {
        spec_symlink_entries(installed.drop_last(), rtx_bin) + spec_symlink_entries_paths(
            installed.last().bin_paths,
            rtx_bin,
        )
    }
}

/// Script entries for one plugin's bundled `shims/` directory.
pub open spec fn spec_script_entries_dir(
    entries: Seq<ShimTargetV>,
    data_dir: Seq<char>,
    fake_asdf_dir: Seq<char>,
) -> Seq<ShimEntryV>
    decreases entries.len(),
{
    if entries.len() == 0 {
        Seq::<ShimEntryV>::empty()
    } else {
        spec_script_entries_dir(entries.drop_last(), data_dir, fake_asdf_dir).push(
            ShimEntryV {
                name: entries.last().name,
                content: ShimContentV::Script(
                    spec_script_text(data_dir, fake_asdf_dir, entries.last().target),
                ),
            },
        )
    }
}

/// Script entries for every configured external plugin, in order.
pub open spec fn spec_script_entries(
    plugins: Seq<PluginShimDirV>,
    data_dir: Seq<char>,
    fake_asdf_dir: Seq<char>,
) -> Seq<ShimEntryV>
    decreases plugins.len(),
{
    if plugins.len() == 0 {
        Seq::<ShimEntryV>::empty()
    } else {
        spec_script_entries(plugins.drop_last(), data_dir, fake_asdf_dir) + spec_script_entries_dir(
            plugins.last().entries,
            data_dir,
            fake_asdf_dir,
        )
    }
}

/// The whole regeneration plan: one symlink entry per exported binary
/// of every installed version, then one script entry per
/// plugin-authored shim. Later entries overwrite earlier ones of the
/// same name when the plan is applied.
pub open spec fn spec_reshim_plan(
    installed: Seq<RuntimeVersionV>,
    plugins: Seq<PluginShimDirV>,
    rtx_bin: Seq<char>,
    data_dir: Seq<char>,
    fake_asdf_dir: Seq<char>,
) -> Seq<ShimEntryV> {
    spec_symlink_entries(installed, rtx_bin) + spec_script_entries(
        plugins,
        data_dir,
        fake_asdf_dir,
    )
}

fn push_symlink_entries_bins(bins: &Vec<String>, rtx_bin: &str, out: &mut Vec<ShimEntry>)
    ensures
        plan_view(final(out)@) == plan_view(old(out)@) + spec_symlink_entries_bins(
            bins@.map_values(|s: String| s@),
            rtx_bin@,
        ),
{
    let ghost base = plan_view(out@);
    let ghost bv = bins@.map_values(|s: String| s@);
    proof {
        assert(bv.subrange(0, 0) =~= Seq::<Seq<char>>::empty());
        assert(base + spec_symlink_entries_bins(bv.subrange(0, 0), rtx_bin@) =~= base);
    }
    let mut i: usize = 0;
    while i < bins.len()
        invariant
            0 <= i <= bins@.len(),
            bv == bins@.map_values(|s: String| s@),
            bv.len() == bins@.len(),
            plan_view(out@) == base + spec_symlink_entries_bins(bv.subrange(0, i as int), rtx_bin@),
        decreases bins@.len() - i,
    {
        let e = ShimEntry {
            name: bins[i].clone(),
            content: ShimContent::Symlink(rtx_bin.to_owned()),
        };
        let ghost eg = e;
        let ghost prev = plan_view(out@);
        out.push(e);
        proof {
            assert(bv.subrange(0, i + 1).drop_last() =~= bv.subrange(0, i as int));
            assert(bv.subrange(0, i + 1).last() == bv[i as int]);
            assert(bv[i as int] == bins@[i as int]@);
            assert(eg@ == (ShimEntryV { name: bv[i as int], content: ShimContentV::Symlink(rtx_bin@) }));
            assert(plan_view(out@) =~= prev.push(eg@));
            assert(spec_symlink_entries_bins(bv.subrange(0, i + 1), rtx_bin@)
                == spec_symlink_entries_bins(bv.subrange(0, i as int), rtx_bin@).push(eg@));
            assert(prev.push(eg@) =~= base + spec_symlink_entries_bins(
                bv.subrange(0, i + 1),
                rtx_bin@,
            ));
        }
        i += 1;
    }
    proof {
        assert(bv.subrange(0, bv.len() as int) =~= bv);
    }
}

fn push_symlink_entries_paths(paths: &Vec<BinPath>, rtx_bin: &str, out: &mut Vec<ShimEntry>)
    ensures
        plan_view(final(out)@) == plan_view(old(out)@) + spec_symlink_entries_paths(
            paths@.map_values(|b: BinPath| b@),
            rtx_bin@,
        ),
{
    let ghost base = plan_view(out@);
    let ghost pv = paths@.map_values(|b: BinPath| b@);
    proof {
        assert(pv.subrange(0, 0) =~= Seq::<BinPathV>::empty());
        assert(base + spec_symlink_entries_paths(pv.subrange(0, 0), rtx_bin@) =~= base);
    }
    let mut i: usize = 0;
    while i < paths.len()
        invariant
            0 <= i <= paths@.len(),
            pv == paths@.map_values(|b: BinPath| b@),
            pv.len() == paths@.len(),
            plan_view(out@) == base + spec_symlink_entries_paths(
                pv.subrange(0, i as int),
                rtx_bin@,
            ),
        decreases paths@.len() - i,
    {
        push_symlink_entries_bins(&paths[i].bins, rtx_bin, out);
        proof {
            assert(pv.subrange(0, i + 1).drop_last() =~= pv.subrange(0, i as int));
            assert(pv.subrange(0, i + 1).last() == pv[i as int]);
            assert(pv[i as int] == paths@[i as int]@);
            assert(plan_view(out@) =~= base + spec_symlink_entries_paths(
                pv.subrange(0, i + 1),
                rtx_bin@,
            ));
        }
        i += 1;
    }
    proof {
        assert(pv.subrange(0, pv.len() as int) =~= pv);
    }
}

fn push_symlink_entries(installed: &Vec<RuntimeVersion>, rtx_bin: &str, out: &mut Vec<ShimEntry>)
    ensures
        plan_view(final(out)@) == plan_view(old(out)@) + spec_symlink_entries(
            installed@.map_values(|v: RuntimeVersion| v@),
            rtx_bin@,
        ),
{
    let ghost base = plan_view(out@);
    let ghost iv = installed@.map_values(|v: RuntimeVersion| v@);
    proof {
        assert(iv.subrange(0, 0) =~= Seq::<RuntimeVersionV>::empty());
        assert(base + spec_symlink_entries(iv.subrange(0, 0), rtx_bin@) =~= base);
    }
    let mut i: usize = 0;
    while i < installed.len()
        invariant
            0 <= i <= installed@.len(),
            iv == installed@.map_values(|v: RuntimeVersion| v@),
            iv.len() == installed@.len(),
            plan_view(out@) == base + spec_symlink_entries(iv.subrange(0, i as int), rtx_bin@),
        decreases installed@.len() - i,
    {
        push_symlink_entries_paths(&installed[i].bin_paths, rtx_bin, out);
        proof {
            assert(iv.subrange(0, i + 1).drop_last() =~= iv.subrange(0, i as int));
            assert(iv.subrange(0, i + 1).last() == iv[i as int]);
            assert(iv[i as int] == installed@[i as int]@);
            assert(plan_view(out@) =~= base + spec_symlink_entries(
                iv.subrange(0, i + 1),
                rtx_bin@,
            ));
        }
        i += 1;
    }
    proof {
        assert(iv.subrange(0, iv.len() as int) =~= iv);
    }
}

fn push_script_entries_dir(
    entries: &Vec<ShimTarget>,
    data_dir: &str,
    fake_asdf_dir: &str,
    out: &mut Vec<ShimEntry>,
)
    ensures
        plan_view(final(out)@) == plan_view(old(out)@) + spec_script_entries_dir(
            entries@.map_values(|t: ShimTarget| t@),
            data_dir@,
            fake_asdf_dir@,
        ),
{
    let ghost base = plan_view(out@);
    let ghost ev = entries@.map_values(|t: ShimTarget| t@);
    proof {
        assert(ev.subrange(0, 0) =~= Seq::<ShimTargetV>::empty());
        assert(base + spec_script_entries_dir(ev.subrange(0, 0), data_dir@, fake_asdf_dir@)
            =~= base);
    }
    let mut i: usize = 0;
    while i < entries.len()
        invariant
            0 <= i <= entries@.len(),
            ev == entries@.map_values(|t: ShimTarget| t@),
            ev.len() == entries@.len(),
            plan_view(out@) == base + spec_script_entries_dir(
                ev.subrange(0, i as int),
                data_dir@,
                fake_asdf_dir@,
            ),
        decreases entries@.len() - i,
    {
        let t = &entries[i];
        let script = make_shim(t.target.as_str(), data_dir, fake_asdf_dir);
        let e = ShimEntry { name: t.name.clone(), content: ShimContent::Script(script) };
        let ghost eg = e;
        let ghost prev = plan_view(out@);
        out.push(e);
        proof {
            assert(ev.subrange(0, i + 1).drop_last() =~= ev.subrange(0, i as int));
            assert(ev.subrange(0, i + 1).last() == ev[i as int]);
            assert(ev[i as int] == entries@[i as int]@);
            assert(eg@ == (ShimEntryV {
                name: ev[i as int].name,
                content: ShimContentV::Script(
                    spec_script_text(data_dir@, fake_asdf_dir@, ev[i as int].target),
                ),
            }));
            assert(plan_view(out@) =~= prev.push(eg@));
            assert(spec_script_entries_dir(ev.subrange(0, i + 1), data_dir@, fake_asdf_dir@)
                == spec_script_entries_dir(
                ev.subrange(0, i as int),
                data_dir@,
                fake_asdf_dir@,
            ).push(eg@));
            assert(prev.push(eg@) =~= base + spec_script_entries_dir(
                ev.subrange(0, i + 1),
                data_dir@,
                fake_asdf_dir@,
            ));
        }
        i += 1;
    }
    proof {
        assert(ev.subrange(0, ev.len() as int) =~= ev);
    }
}

fn push_script_entries(
    plugins: &Vec<PluginShimDir>,
    data_dir: &str,
    fake_asdf_dir: &str,
    out: &mut Vec<ShimEntry>,
)
    ensures
        plan_view(final(out)@) == plan_view(old(out)@) + spec_script_entries(
            plugins@.map_values(|p: PluginShimDir| p@),
            data_dir@,
            fake_asdf_dir@,
        ),
{
    let ghost base = plan_view(out@);
    let ghost sv = plugins@.map_values(|p: PluginShimDir| p@);
    proof {
        assert(sv.subrange(0, 0) =~= Seq::<PluginShimDirV>::empty());
        assert(base + spec_script_entries(sv.subrange(0, 0), data_dir@, fake_asdf_dir@) =~= base);
    }
    let mut i: usize = 0;
    while i < plugins.len()
        invariant
            0 <= i <= plugins@.len(),
            sv == plugins@.map_values(|p: PluginShimDir| p@),
            sv.len() == plugins@.len(),
            plan_view(out@) == base + spec_script_entries(
                sv.subrange(0, i as int),
                data_dir@,
                fake_asdf_dir@,
            ),
        decreases plugins@.len() - i,
    {
        push_script_entries_dir(&plugins[i].entries, data_dir, fake_asdf_dir, out);
        proof {
            assert(sv.subrange(0, i + 1).drop_last() =~= sv.subrange(0, i as int));
            assert(sv.subrange(0, i + 1).last() == sv[i as int]);
            assert(sv[i as int] == plugins@[i as int]@);
            assert(plan_view(out@) =~= base + spec_script_entries(
                sv.subrange(0, i + 1),
                data_dir@,
                fake_asdf_dir@,
            ));
        }
        i += 1;
    }
    proof {
        assert(sv.subrange(0, sv.len() as int) =~= sv);
    }
}

/// Plan a full rebuild of the shim directory: `None` when the
/// experimental flag is off or no shim directory is configured (the
/// pass is a no-op), else the complete ordered entry list the rebuilt
/// directory must hold, per `spec_reshim_plan`. The plan depends only
/// on the installed state handed in, never on the directory's prior
/// contents: applying it means delete, recreate, then write each entry
/// in order.
pub fn reshim(
    settings: &Settings,
    installed: &Vec<RuntimeVersion>,
    plugin_shims: &Vec<PluginShimDir>,
    rtx_bin: &str,
    data_dir: &str,
    fake_asdf_dir: &str,
) -> (r: Option<Vec<ShimEntry>>)
    ensures
        r is Some <==> (settings.experimental && settings.shims_dir is Some),
        match r {
            Some(plan) => plan_view(plan@) == spec_reshim_plan(
                installed@.map_values(|v: RuntimeVersion| v@),
                plugin_shims@.map_values(|p: PluginShimDir| p@),
                rtx_bin@,
                data_dir@,
                fake_asdf_dir@,
            ),
            None => true,
        },
{
    if !settings.experimental {
        return None;
    }
    match &settings.shims_dir {
        None => None,
        Some(_) => {
            let mut out: Vec<ShimEntry> = Vec::new();
            push_symlink_entries(installed, rtx_bin, &mut out);
            push_script_entries(plugin_shims, data_dir, fake_asdf_dir, &mut out);
            proof {
                assert(plan_view(out@) =~= spec_reshim_plan(
                    installed@.map_values(|v: RuntimeVersion| v@),
                    plugin_shims@.map_values(|p: PluginShimDir| p@),
                    rtx_bin@,
                    data_dir@,
                    fake_asdf_dir@,
                ));
            }
            Some(out)
        },
    }
}

/// The directory contents a plan produces: entries applied in order,
/// the last writer of a name winning.
pub open spec fn spec_dir_of_plan(plan: Seq<ShimEntryV>) -> Map<Seq<char>, ShimContentV>
    decreases plan.len(),
{
    if plan.len() == 0 {
        Map::<Seq<char>, ShimContentV>::empty()
    } else {
        spec_dir_of_plan(plan.drop_last()).insert(plan.last().name, plan.last().content)
    }
}

/// The directory contents after one regeneration pass over `prev`:
/// unchanged when the pass is a no-op, else the destructive rebuild
/// replaces whatever was there with the plan's contents alone.
pub open spec fn spec_dir_after_pass(
    prev: Map<Seq<char>, ShimContentV>,
    experimental: bool,
    shims_dir_configured: bool,
    installed: Seq<RuntimeVersionV>,
    plugins: Seq<PluginShimDirV>,
    rtx_bin: Seq<char>,
    data_dir: Seq<char>,
    fake_asdf_dir: Seq<char>,
) -> Map<Seq<char>, ShimContentV> {
    if !experimental || !shims_dir_configured {
        prev
    } else {
        spec_dir_of_plan(spec_reshim_plan(installed, plugins, rtx_bin, data_dir, fake_asdf_dir))
    }
}

/// Idempotence of regeneration: two consecutive passes over unchanged
/// installed state leave the directory exactly as one pass does, name
/// for name and content for content, whatever the directory held
/// before the first pass.
pub proof fn lemma_reshim_idempotent(
    prev: Map<Seq<char>, ShimContentV>,
    experimental: bool,
    shims_dir_configured: bool,
    installed: Seq<RuntimeVersionV>,
    plugins: Seq<PluginShimDirV>,
    rtx_bin: Seq<char>,
    data_dir: Seq<char>,
    fake_asdf_dir: Seq<char>,
)
    ensures
        spec_dir_after_pass(
            spec_dir_after_pass(
                prev,
                experimental,
                shims_dir_configured,
                installed,
                plugins,
                rtx_bin,
                data_dir,
                fake_asdf_dir,
            ),
            experimental,
            shims_dir_configured,
            installed,
            plugins,
            rtx_bin,
            data_dir,
            fake_asdf_dir,
        ) == spec_dir_after_pass(
            prev,
            experimental,
            shims_dir_configured,
            installed,
            plugins,
            rtx_bin,
            data_dir,
            fake_asdf_dir,
        ),
{
}

/// A binary name with no shim entry — or no shim directory at all —
/// dispatches to `NotAShim`.
pub proof fn lemma_dispatch_not_a_shim(env: DispatchEnvV, ts: ToolsetV, b: Seq<char>)
    requires
        match env.shim_entries {
            None => true,
            Some(es) => !has_name(es, b),
        },
    ensures
        spec_which_shim(env, ts, b) == DispatchResultV::NotAShim,
{
}

/// The candidate list is exact: it is the installed versions that
/// export `b`, kept in discovery order and mapped to
/// `(plugin, version)` — each exporting version exactly once.
pub proof fn lemma_candidates_exact(installed: Seq<RuntimeVersionV>, b: Seq<char>)
    ensures
        spec_candidates(installed, b) == installed.filter(
            |rtv: RuntimeVersionV| spec_rtv_has_bin(rtv, b),
        ).map_values(|rtv: RuntimeVersionV| (rtv.plugin, rtv.version)),
    decreases installed.len(),
{
    reveal(Seq::filter);
    if installed.len() == 0 {
        assert(installed.filter(|rtv: RuntimeVersionV| spec_rtv_has_bin(rtv, b)).map_values(
            |rtv: RuntimeVersionV| (rtv.plugin, rtv.version),
        ) =~= Seq::<(Seq<char>, Seq<char>)>::empty());
    } else {
        let d = installed.drop_last();
        lemma_candidates_exact(d, b);
        if spec_rtv_has_bin(installed.last(), b) {
            d.filter(|rtv: RuntimeVersionV| spec_rtv_has_bin(rtv, b)).lemma_push_map_commute(
                |rtv: RuntimeVersionV| (rtv.plugin, rtv.version),
                installed.last(),
            );
            assert(spec_candidates(installed, b) =~= installed.filter(
                |rtv: RuntimeVersionV| spec_rtv_has_bin(rtv, b),
            ).map_values(|rtv: RuntimeVersionV| (rtv.plugin, rtv.version)));
        }
    }
}

/// Some installed version exports `b`, so the candidate list is
/// non-empty.
pub proof fn lemma_candidates_cover(installed: Seq<RuntimeVersionV>, b: Seq<char>, i: int)
    requires
        0 <= i < installed.len(),
        spec_rtv_has_bin(installed[i], b),
    ensures
        spec_candidates(installed, b).len() > 0,
    decreases installed.len(),
{
    if i < installed.len() - 1 {
        assert(installed.drop_last()[i] == installed[i]);
        lemma_candidates_cover(installed.drop_last(), b, i);
    }
}

/// When a shim for `b` exists and some installed version exports `b`,
/// but neither the toolset-selected version nor the search path yields
/// a binary, dispatch fails `NoVersionSelected`, listing every
/// exporting version — each exactly once, in discovery order, as
/// `spec_candidates` enumerates them.
pub proof fn lemma_dispatch_no_version_selected(
    env: DispatchEnvV,
    ts: ToolsetV,
    b: Seq<char>,
    i: int,
)
    requires
        env.shim_entries matches Some(es) && has_name(es, b),
        match spec_resolve(ts, env.installed, b) {
            Some(rtv) => spec_rtv_which(rtv.bin_paths, b) is None,
            None => true,
        },
        spec_path_fallback(env.path_dirs, b) is None,
        0 <= i < env.installed.len(),
        spec_rtv_has_bin(env.installed[i], b),
    ensures
        spec_which_shim(env, ts, b) == DispatchResultV::NoVersionSelected(
            spec_candidates(env.installed, b),
        ),
{
    lemma_candidates_cover(env.installed, b, i);
}

/// Fallback correctness: the search-path fallback only ever yields an
/// entry of a directory that is not the shim directory; when `b`
/// exists only inside shim directories the fallback yields nothing;
/// and when `b` exists in some non-shim directory it yields a path.
pub proof fn lemma_fallback_correctness(dirs: Seq<PathDirV>, b: Seq<char>)
    ensures
        match spec_path_fallback(dirs, b) {
            Some(p) => exists|i: int|
                0 <= i < dirs.len() && !dirs[i].is_shims_dir && has_name(dirs[i].bins, b) && p
                    == dirs[i].path + seq!['/'] + b,
            None => true,
        },
        (forall|i: int| 0 <= i < dirs.len() ==> dirs[i].is_shims_dir || !has_name(dirs[i].bins, b))
            ==> spec_path_fallback(dirs, b) is None,
        (exists|i: int| 0 <= i < dirs.len() && !dirs[i].is_shims_dir && has_name(dirs[i].bins, b))
            ==> spec_path_fallback(dirs, b) is Some,
    decreases dirs.len(),
{
    if dirs.len() > 0 {
        let d = dirs.drop_first();
        lemma_fallback_correctness(d, b);
        if !dirs[0].is_shims_dir && has_name(dirs[0].bins, b) {
        } else {
            assert(forall|k: int| 0 <= k < d.len() ==> d[k] == dirs[k + 1]);
            if exists|i: int|
                0 <= i < dirs.len() && !dirs[i].is_shims_dir && has_name(dirs[i].bins, b) {
                let i = choose|i: int|
                    0 <= i < dirs.len() && !dirs[i].is_shims_dir && has_name(dirs[i].bins, b);
                assert(d[i - 1] == dirs[i]);
            }
            match spec_path_fallback(d, b) {
                Some(p) => {
                    let j = choose|j: int|
                        0 <= j < d.len() && !d[j].is_shims_dir && has_name(d[j].bins, b) && p
                            == d[j].path + seq!['/'] + b;
                    assert(dirs[j + 1] == d[j]);
                },
                None => {},
            }
        }
    }
}

/// When a shim for `b` exists, the toolset-selected version yields no
/// binary, and `b` exists on the search path outside the shim
/// directory, dispatch execs the fallback path.
pub proof fn lemma_dispatch_fallback(env: DispatchEnvV, ts: ToolsetV, b: Seq<char>, p: Seq<char>)
    requires
        env.shim_entries matches Some(es) && has_name(es, b),
        match spec_resolve(ts, env.installed, b) {
            Some(rtv) => spec_rtv_which(rtv.bin_paths, b) is None,
            None => true,
        },
        spec_path_fallback(env.path_dirs, b) == Some(p),
    ensures
        spec_which_shim(env, ts, b) == DispatchResultV::Path(p),
{
}

} // verus!
