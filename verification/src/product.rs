//! Product identity: which distribution (upstream Codex or DCode) a running
//! executable represents, and the defaults that come with it.

use vstd::prelude::*;

use crate::text::str_eq;
use crate::text::starts_with;

verus! {

/// Product-level defaults supplied by a downstream Codex distribution.
///
/// Only product identity and defaults depend on this value; model execution
/// and agent behavior do not.
#[derive(Clone, Copy, Debug, PartialEq, Eq)]
pub struct ProductInfo {
    pub display_name: &'static str,
    pub long_name: &'static str,
    pub cli_name: &'static str,
    pub description: &'static str,
    pub home_env: &'static str,
    pub default_home_dir: &'static str,
    pub default_model_provider: &'static str,
    pub default_model: Option<&'static str>,
    pub github_repository: &'static str,
    pub version: &'static str,
}

/// DCode release version, independent from upstream workspace versions.
pub const DCODE_VERSION: &'static str = "0.2.1";

/// Version that upstream Codex workspace builds report.
pub const CODEX_VERSION: &'static str = "0.0.0";

/// Environment variable that selects the distribution explicitly.
pub const PRODUCT_DISTRIBUTION_ENV: &'static str = "CODEX_DISTRIBUTION";

/// The upstream Codex product.
pub open spec fn codex_product_spec() -> ProductInfo {
    ProductInfo {
        display_name: "Codex",
        long_name: "OpenAI Codex",
        cli_name: "codex",
        description: "OpenAI's command-line coding agent",
        home_env: "CODEX_HOME",
        default_home_dir: ".codex",
        default_model_provider: "openai",
        default_model: None,
        github_repository: "openai/codex",
        version: CODEX_VERSION,
    }
}

/// The DCode product.
pub open spec fn dcode_product_spec() -> ProductInfo {
    ProductInfo {
        display_name: "DCode",
        long_name: "DCode",
        cli_name: "dcode",
        description: "DeepSeek-powered command-line coding agent",
        home_env: "DCODE_HOME",
        default_home_dir: ".dcode",
        default_model_provider: "deepseek",
        default_model: Some("deepseek-v4-flash"),
        github_repository: "dopejs/dcode",
        version: DCODE_VERSION,
    }
}

/// The upstream Codex product.
#[verifier::when_used_as_spec(codex_product_spec)]
pub fn codex_product() -> (p: ProductInfo)
    ensures
        p == codex_product_spec(),
{
    ProductInfo {
        display_name: "Codex",
        long_name: "OpenAI Codex",
        cli_name: "codex",
        description: "OpenAI's command-line coding agent",
        home_env: "CODEX_HOME",
        default_home_dir: ".codex",
        default_model_provider: "openai",
        default_model: None,
        github_repository: "openai/codex",
        version: CODEX_VERSION,
    }
}

/// The DCode product.
#[verifier::when_used_as_spec(dcode_product_spec)]
pub fn dcode_product() -> (p: ProductInfo)
    ensures
        p == dcode_product_spec(),
{
    ProductInfo {
        display_name: "DCode",
        long_name: "DCode",
        cli_name: "dcode",
        description: "DeepSeek-powered command-line coding agent",
        home_env: "DCODE_HOME",
        default_home_dir: ".dcode",
        default_model_provider: "deepseek",
        default_model: Some("deepseek-v4-flash"),
        github_repository: "dopejs/dcode",
        version: DCODE_VERSION,
    }
}

/// Whether an executable's file stem names a DCode binary: `dcode` itself or a
/// target-suffixed release binary such as `dcode-aarch64-apple-darwin`.
pub open spec fn is_dcode_stem(stem: Seq<char>) -> bool {
    stem == "dcode"@ || "dcode-"@.is_prefix_of(stem)
}

/// The product that an executable with the given file stem represents.
pub open spec fn product_for_stem(file_stem: Option<Seq<char>>) -> ProductInfo {
    match file_stem {
        Some(stem) => if is_dcode_stem(stem) {
            dcode_product_spec()
        } else {
            codex_product_spec()
        },
        None => codex_product_spec(),
    }
}

/// The product for an executable whose file stem is `file_stem` (`None` when
/// the path has no file name, or one that is not UTF-8).
pub fn product_for_executable_name(file_stem: Option<&str>) -> (p: ProductInfo)
    ensures
        p == product_for_stem(
            match file_stem {
                Some(s) => Some(s@),
                None => None,
            },
        ),
{
    let is_dcode = match file_stem {
        Some(name) => str_eq(name, "dcode") || starts_with(name, "dcode-"),
        None => false,
    };
    if is_dcode {
        dcode_product()
    } else {
        codex_product()
    }
}

/// Whether std reads `path` alike on every platform: no `\`, no `:` and no
/// leading `//`, so that it has no drive, UNC or verbatim prefix and `/` is
/// its only separator.
pub open spec fn portable_path(path: Seq<char>) -> bool {
    &&& forall|i: int| 0 <= i < path.len() ==> #[trigger] path[i] != '\\' && path[i] != ':'
    &&& !(path.len() >= 2 && path[0] == '/' && path[1] == '/')
}

/// The final component's name of the part `rest` of a path, when `piece`
/// holds the characters of the component being read just after `rest`.
/// Repeated and trailing separators and `.` components are skipped; a final
/// `..`, the root alone or an empty path has no name.
pub open spec fn name_from_end(rest: Seq<char>, piece: Seq<char>) -> Option<Seq<char>>
    decreases rest.len(),
{
    if rest.len() == 0 || rest.last() == '/' {
        if piece.len() == 0 || piece == seq!['.'] {
            if rest.len() == 0 {
                None
            } else {
                name_from_end(rest.drop_last(), seq![])
            }
        } else if piece == seq!['.', '.'] {
            None
        } else {
            Some(piece)
        }
    } else {
        name_from_end(rest.drop_last(), seq![rest.last()] + piece)
    }
}

/// The file name of `path` (what `Path::file_name` gives), for a path that
/// `portable_path` admits.
pub open spec fn file_name_of(path: Seq<char>) -> Option<Seq<char>> {
    name_from_end(path, seq![])
}

/// The index of the last `.` in `name`, or -1 when it has none.
pub open spec fn last_dot(name: Seq<char>) -> int
    decreases name.len(),
{
    if name.len() == 0 {
        -1
    } else if name.last() == '.' {
        name.len() - 1
    } else {
        last_dot(name.drop_last())
    }
}

/// The stem of a file name: the part before its last `.`, or the whole name
/// when it has no `.` or its only `.` is its first character.
pub open spec fn stem_of(name: Seq<char>) -> Seq<char> {
    if last_dot(name) <= 0 {
        name
    } else {
        name.take(last_dot(name))
    }
}

/// The file stem of `path` (what `Path::file_stem` gives), for a path that
/// `portable_path` admits: `None` when it has no file name.
pub open spec fn file_stem_of(path: Seq<char>) -> Option<Seq<char>> {
    match file_name_of(path) {
        Some(name) => Some(stem_of(name)),
        None => None,
    }
}

/// The file stem of `path`, through std's `Path::file_stem`.
///
/// As std documents it, the file name is the path's final component, where
/// repeated separators, a trailing separator and `.` components are
/// normalized away, and there is none for a path that ends in `..`, for the
/// root alone or for an empty path. The stem is that name before its final
/// `.`, or the whole name when it has no `.` or begins with its only `.`. On
/// every platform `/` separates components, and a path without `\`, `:` or a
/// leading `//` has no prefix, so for such paths the contract states the
/// stem. A stem of a `str` is valid UTF-8, so `to_str` keeps it. For other
/// paths, whose reading depends on the platform, it states nothing.
#[verifier::external_body]
fn path_file_stem(path: &str) -> (r: Option<String>)
    ensures
        portable_path(path@) ==> match (r, file_stem_of(path@)) {
            (Some(s), Some(t)) => s@ == t,
            (None, None) => true,
            _ => false,
        },
{
    std::path::Path::new(path).file_stem().and_then(|s| s.to_str()).map(|s| s.to_string())
}

/// The product represented by the executable at `executable`: DCode for a
/// binary named `dcode` (including target-suffixed release binaries and a
/// `.exe` extension), in any directory; Codex otherwise.
pub fn product_for_executable(executable: &str) -> (p: ProductInfo)
    ensures
        p == dcode_product_spec() || p == codex_product_spec(),
        portable_path(executable@) ==> p == product_for_stem(file_stem_of(executable@)),
{
    let stem = path_file_stem(executable);
    match &stem {
        Some(s) => product_for_executable_name(Some(s.as_str())),
        None => product_for_executable_name(None),
    }
}

/// The product that the running process represents, given the value of
/// `CODEX_DISTRIBUTION` and the path of the current executable (each `None`
/// when unavailable). An explicit `dcode` distribution wins; otherwise the
/// executable decides, and Codex is the default.
pub fn product_from_environment(distribution: Option<&str>, executable: Option<&str>) -> (p:
    ProductInfo)
    ensures
        (distribution matches Some(d) && d@ == "dcode"@) ==> p == dcode_product_spec(),
        !(distribution matches Some(d) && d@ == "dcode"@) ==> match executable {
            None => p == codex_product_spec(),
            Some(e) => (p == dcode_product_spec() || p == codex_product_spec()) && (portable_path(
                e@,
            ) ==> p == product_for_stem(file_stem_of(e@))),
        },
{
    if let Some(d) = distribution {
        if str_eq(d, "dcode") {
            return dcode_product();
        }
    }
    match executable {
        Some(e) => product_for_executable(e),
        None => codex_product(),
    }
}

} // verus!
