//! Where the contract of the HTTP interface is looked for.

use crate::paths;
use crate::text;
use vstd::prelude::*;

verus! {

/// The environment variable that may name the file with the contract.
pub const OPENAPI_SPEC_PATH_ENV_KEY: &'static str = "OPENAPI_SPEC_PATH";

/// The paths at which the contract may stand: beside the directory of the package,
/// and below the working directory.
pub open spec fn candidate_paths(manifest_dir: Seq<char>) -> Seq<Seq<char>> {
    seq![paths::below(manifest_dir, "../docs/openapi.yaml"@), "docs/openapi.yaml"@]
}

/// The path that the environment names: what it holds, trimmed, unless that is
/// nothing.
pub open spec fn named_path(value: Option<Seq<char>>) -> Option<Seq<char>> {
    match value {
        Some(path) => if text::trim(path).len() > 0 {
            Some(text::trim(path))
        } else {
            None
        },
        None => None,
    }
}

/// The paths at which the contract is looked for, in their order.
pub open spec fn lookup_paths(value: Option<Seq<char>>, manifest_dir: Seq<char>) -> Seq<Seq<char>> {
    match named_path(value) {
        Some(path) => seq![path] + candidate_paths(manifest_dir),
        None => candidate_paths(manifest_dir),
    }
}

/// The paths at which the contract may stand.
pub fn openapi_candidate_paths(manifest_dir: &str) -> (r: [String; 2])
    ensures
        r@[0]@ == candidate_paths(manifest_dir@)[0],
        r@[1]@ == candidate_paths(manifest_dir@)[1],
{
    [paths::join(manifest_dir, "../docs/openapi.yaml"), "docs/openapi.yaml".to_owned()]
}

/// The path that the environment names.
pub fn openapi_path_from_env(value: Option<String>) -> (r: Option<String>)
    ensures
        text::optional(r) == named_path(text::optional(value)),
{
    let path = match value {
        Some(path) => path,
        None => {
            return None;
        },
    };
    let chars = text::chars_of(path.as_str());
    let trimmed = text::trim_slice(chars.as_slice());
    if trimmed.len() == 0 {
        return None;
    }
    Some(text::string_of(trimmed))
}

/// The paths at which the contract is looked for, in their order.
pub fn openapi_lookup_paths(value: Option<String>, manifest_dir: &str) -> (r: Vec<String>)
    ensures
        r.deep_view() == lookup_paths(text::optional(value), manifest_dir@),
{
    let candidates = openapi_candidate_paths(manifest_dir);
    let mut paths: Vec<String> = Vec::new();
    if let Some(path) = openapi_path_from_env(value) {
        paths.push(path);
    }
    paths.push(candidates[0].clone());
    paths.push(candidates[1].clone());
    paths
}

} // verus!
