//! Where the bundled RAOP sender binary may be installed: the file names the
//! resolver accepts under each search root. Tauri strips the target-triple
//! suffix at bundle time, so the installed file is `cliraop[.exe]`, while the
//! dev `binaries/` copy keeps the triple tag.

use std::path::{Path, PathBuf};
use vstd::prelude::*;

use crate::text::{concat, owned};

verus! {

#[verifier::external_type_specification]
#[verifier::external_body]
pub struct ExPathBuf(PathBuf);

/// Basename of the RAOP sender binary, before Tauri's target-triple suffix.
pub const CLIRAOP_BASENAME: &'static str = "cliraop";

/// The four accepted file names, in search order: triple-tagged with and
/// without `.exe`, then stripped with and without `.exe`.
pub open spec fn candidate_name_seq(triple_name: Seq<char>) -> Seq<Seq<char>> {
    seq![triple_name + ".exe"@, triple_name, "cliraop.exe"@, "cliraop"@]
}

/// The accepted file names for a binary tagged `triple_name`, in the order
/// they are tried.
pub fn candidate_names(triple_name: &str) -> (r: Vec<String>)
    ensures
        r@.len() == 4,
        forall|i: int| 0 <= i < 4 ==> #[trigger] r@[i]@ == candidate_name_seq(triple_name@)[i],
{
    let mut r: Vec<String> = Vec::new();
    r.push(concat(triple_name, ".exe"));
    r.push(owned(triple_name));
    r.push(concat(CLIRAOP_BASENAME, ".exe"));
    r.push(owned(CLIRAOP_BASENAME));
    proof {
        assert("cliraop"@ + ".exe"@ =~= "cliraop.exe"@) by {
            reveal_strlit("cliraop");
            reveal_strlit(".exe");
            reveal_strlit("cliraop.exe");
        }
    }
    r
}

/// `base` joined with `name` (`Path::join`). The separator is the
/// platform's, so nothing is stated of the result.
#[verifier::external_body]
fn join_file(base: &str, name: &str) -> PathBuf {
    Path::new(base).join(name)
}

/// Every install-layout path under `base` the resolver must accept, in the
/// order they are tried: each of `candidate_names(triple_name)` joined onto
/// `base`.
pub fn candidate_paths(base: &str, triple_name: &str) -> (r: Vec<PathBuf>)
    ensures
        r@.len() == 4,
{
    let names = candidate_names(triple_name);
    let mut r: Vec<PathBuf> = Vec::new();
    let mut i: usize = 0;
    while i < names.len()
        invariant
            names@.len() == 4,
            i <= 4,
            r@.len() == i,
        decreases 4 - i,
    {
        r.push(join_file(base, names[i].as_str()));
        i = i + 1;
    }
    r
}

} // verus!
