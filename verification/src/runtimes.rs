//! Installed runtime versions: one concrete installed version of a
//! plugin's tool, together with the binary directories discovered for
//! it and the binary names each directory holds.

use vstd::prelude::*;

use crate::strutil;

verus! {

/// One discovered binary directory of an installed version: its path
/// and the names of the binaries in it.
#[derive(Debug)]
pub struct BinPath {
    pub dir: String,
    pub bins: Vec<String>,
}

/// One installed version of a plugin's tool.
#[derive(Debug)]
pub struct RuntimeVersion {
    pub plugin: String,
    pub version: String,
    pub bin_paths: Vec<BinPath>,
}

/// Mathematical image of a `BinPath`.
pub struct BinPathV {
    pub dir: Seq<char>,
    pub bins: Seq<Seq<char>>,
}

/// Mathematical image of a `RuntimeVersion`.
pub struct RuntimeVersionV {
    pub plugin: Seq<char>,
    pub version: Seq<char>,
    pub bin_paths: Seq<BinPathV>,
}

impl View for BinPath {
    type V = BinPathV;

    open spec fn view(&self) -> BinPathV {
        BinPathV { dir: self.dir@, bins: self.bins@.map_values(|s: String| s@) }
    }
}

impl View for RuntimeVersion {
    type V = RuntimeVersionV;

    open spec fn view(&self) -> RuntimeVersionV {
        RuntimeVersionV {
            plugin: self.plugin@,
            version: self.version@,
            bin_paths: self.bin_paths@.map_values(|b: BinPath| b@),
        }
    }
}

/// Whether `names` holds the name `b`.
pub open spec fn has_name(names: Seq<Seq<char>>, b: Seq<char>) -> bool {
    exists|i: int| 0 <= i < names.len() && names[i] == b
}

/// The path an installed version resolves `b` to: the first of its
/// binary directories holding `b`, joined with `b`.
pub open spec fn spec_rtv_which(paths: Seq<BinPathV>, b: Seq<char>) -> Option<Seq<char>>
    decreases paths.len(),
{
    if paths.len() == 0 {
        None
    } else if has_name(paths[0].bins, b) {
        Some(paths[0].dir + seq!['/'] + b)
    } else {
        spec_rtv_which(paths.drop_first(), b)
    }
}

/// Whether an installed version exports the binary name `b`.
pub open spec fn spec_rtv_has_bin(rtv: RuntimeVersionV, b: Seq<char>) -> bool {
    spec_rtv_which(rtv.bin_paths, b) is Some
}

pub proof fn lemma_has_name_view(bins: Seq<String>, b: Seq<char>)
    ensures
        has_name(bins.map_values(|s: String| s@), b) <==> strutil::seq_contains_str(bins, b),
{
    let m = bins.map_values(|s: String| s@);
    if strutil::seq_contains_str(bins, b) {
        let i = choose|i: int| 0 <= i < bins.len() && bins[i]@ == b;
        assert(m[i] == b);
    }
    if has_name(m, b) {
        let i = choose|i: int| 0 <= i < m.len() && m[i] == b;
        assert(bins[i]@ == b);
    }
}

impl RuntimeVersion {
    /// The path to this version's binary named `bin_name`, if one of
    /// its binary directories holds it.
    pub fn which(&self, bin_name: &str) -> (r: Option<String>)
        ensures
            match r {
                Some(p) => spec_rtv_which(self@.bin_paths, bin_name@) == Some(p@),
                None => spec_rtv_which(self@.bin_paths, bin_name@) is None,
            },
    {
        let ghost pv = self@.bin_paths;
        proof {
            assert(pv.subrange(0, pv.len() as int) =~= pv);
        }
        let mut i: usize = 0;
        while i < self.bin_paths.len()
            invariant
                0 <= i <= self.bin_paths@.len(),
                pv == self@.bin_paths,
                pv.len() == self.bin_paths@.len(),
                spec_rtv_which(pv, bin_name@) == spec_rtv_which(
                    pv.subrange(i as int, pv.len() as int),
                    bin_name@,
                ),
            decreases self.bin_paths@.len() - i,
        {
            let ghost suf = pv.subrange(i as int, pv.len() as int);
            proof {
                assert(suf[0] == pv[i as int]);
                assert(pv[i as int] == self.bin_paths@[i as int]@);
                assert(suf.drop_first() =~= pv.subrange(i + 1, pv.len() as int));
                lemma_has_name_view(self.bin_paths@[i as int].bins@, bin_name@);
            }
            let bp = &self.bin_paths[i];
            if strutil::vec_contains_str(&bp.bins, bin_name) {
                let p = strutil::join_path(bp.dir.as_str(), bin_name);
                return Some(p);
            }
            i += 1;
        }
        proof {
            assert(pv.subrange(pv.len() as int, pv.len() as int) =~= Seq::<BinPathV>::empty());
        }
        None
    }

    /// Whether this version exports the binary name `bin_name`.
    pub fn has_bin(&self, bin_name: &str) -> (r: bool)
        ensures
            r == spec_rtv_has_bin(self@, bin_name@),
    {
        match self.which(bin_name) {
            Some(_) => true,
            None => false,
        }
    }
}

} // verus!
