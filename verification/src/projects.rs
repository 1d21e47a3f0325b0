use vstd::prelude::*;
use vstd::slice::slice_subrange;
use vstd::string::StringSliceAdditionalSpecFns;

use crate::banner::first_match_idx;
use crate::banner::lemma_first_match_idx_is;
use crate::banner::lemma_first_match_idx_none;

verus! {

// Recognising project paths: which paths point straight at a project bundle
// or build file. Walking directories stays outside the library; the naming
// rules are verified here.

/// The last path component: everything after the final `/`.
pub open spec fn last_component(b: Seq<u8>) -> Seq<u8>
    decreases b.len(),
{
    let i = first_match_idx(b, seq![47u8]);
    if i < 0 || i >= b.len() {
        b
    } else {
        last_component(b.subrange(i + 1, b.len() as int))
    }
}

/// Whether a file name names a project directly: a workspace or project
/// bundle by suffix, or a build file by exact name.
pub open spec fn is_project_file_name(name: Seq<u8>) -> bool {
    ||| crate::text::has_suffix(name, ".xcworkspace".spec_bytes())
    ||| crate::text::has_suffix(name, ".xcodeproj".spec_bytes())
    ||| name == "build.gradle".spec_bytes()
    ||| name == "build.gradle.kts".spec_bytes()
}

fn last_component_exec<'a>(b: &'a [u8]) -> (r: &'a [u8])
    ensures
        r@ == last_component(b@),
    decreases b@.len(),
{
    let mut sep: Vec<u8> = Vec::new();
    sep.push(47u8);
    proof {
        assert(sep@ =~= seq![47u8]);
    }
    let n = b.len();
    match crate::text::find_subslice(b, sep.as_slice()) {
        Some(i) => {
            proof {
                lemma_first_match_idx_is(b@, seq![47u8], i as int);
            }
            last_component_exec(slice_subrange(b, i + 1, n))
        },
        None => {
            proof {
                lemma_first_match_idx_none(b@, seq![47u8]);
            }
            b
        },
    }
}

/// Does this path point directly at a project file or bundle? The decision
/// reads only the last path component.
pub fn is_project_path(path: &str) -> (r: bool)
    ensures
        r == is_project_file_name(last_component(path.spec_bytes())),
{
    let name = last_component_exec(path.as_bytes());
    if crate::text::ends_with_bytes(name, ".xcworkspace".as_bytes()) {
        return true;
    }
    if crate::text::ends_with_bytes(name, ".xcodeproj".as_bytes()) {
        return true;
    }
    if crate::text::bytes_eq(name, "build.gradle".as_bytes()) {
        return true;
    }
    crate::text::bytes_eq(name, "build.gradle.kts".as_bytes())
}

/// A request to validate a project path.
#[derive(Debug)]
pub struct ValidateProjectRequest {
    pub path: String,
}

/// A query over recently opened projects.
#[derive(Debug)]
pub struct RecentProjectsQuery {
    pub query: Option<String>,
    pub limit: u64,
}

/// How many recent projects a query reports when it names no limit.
pub fn default_limit() -> (r: u64)
    ensures
        r == 10,
{
    10
}

/// A request to list the schemes of a project.
#[derive(Debug)]
pub struct XcodeSchemesRequest {
    pub path: String,
}

} // verus!
