//! Where the running distribution keeps its configuration: the rules that
//! choose between `DCODE_HOME`, a legacy `CODEX_HOME` and the default
//! directory under the user's home, as a state machine whose file-system
//! probes are performed by the caller.

use vstd::prelude::*;
use vstd::string::StringExecFns;

use crate::product::ProductInfo;
use crate::text::str_eq;

verus! {

/// Declares std's `io::ErrorKind` so that a failure's kind can be carried
/// through unchanged.
#[verifier::external_type_specification]
#[verifier::external_body]
pub struct ExIoErrorKind(std::io::ErrorKind);

/// Name of the legacy home variable that DCode also honors.
pub const CODEX_HOME_ENV: &'static str = "CODEX_HOME";

/// An environment value that counts as set: present and non-empty.
pub open spec fn set_value(v: Option<Seq<char>>) -> Option<Seq<char>> {
    match v {
        Some(s) => if s.len() > 0 {
            Some(s)
        } else {
            None
        },
        None => None,
    }
}

/// The view of an optional string.
pub open spec fn opt_view(v: Option<&str>) -> Option<Seq<char>> {
    match v {
        Some(s) => Some(s@),
        None => None,
    }
}

/// The view of an optional owned string.
pub open spec fn opt_string_view(v: Option<String>) -> Option<Seq<char>> {
    match v {
        Some(s) => Some(s@),
        None => None,
    }
}

/// The first step of home resolution.
pub enum HomeStep {
    /// Inspect the configured directory `value`, taken from `env_name`.
    CheckPath { env_name: &'static str, value: String },
    /// Canonicalize the configured directory, which exists and is a directory.
    Canonicalize { env_name: &'static str, value: String },
    /// Find the user's home directory and use `dir_name` inside it.
    LocateUserHome { dir_name: &'static str },
    /// Resolution finished.
    Done(Result<HomeLocation, HomeError>),
}

/// A resolved home directory.
pub enum HomeLocation {
    /// A canonical directory named by an environment variable.
    Canonical(String),
    /// `child` inside the user's home directory `base`.
    Joined { base: String, child: &'static str },
}

/// What the caller observed for the step it performed.
pub enum HomeEvent {
    /// The metadata of the configured path.
    Metadata(PathProbe),
    /// The canonical form of the configured path, or why it could not be had.
    Canonical(Result<String, IoFailure>),
    /// The user's home directory, if one is known.
    UserHome(Option<String>),
}

/// The outcome of reading a path's metadata.
pub enum PathProbe {
    /// Nothing exists at the path.
    Missing,
    /// The metadata could not be read for another reason.
    Unreadable(IoFailure),
    /// The path exists and is not a directory.
    NotDirectory,
    /// The path is a directory.
    Directory,
}

/// An I/O failure: its kind and its description.
pub struct IoFailure {
    pub kind: std::io::ErrorKind,
    pub detail: String,
}

/// Why no home directory could be resolved.
pub enum HomeError {
    Missing { env_name: &'static str, value: String },
    Unreadable { env_name: &'static str, value: String, cause: IoFailure },
    NotDirectory { env_name: &'static str, value: String },
    CanonicalizeFailed { env_name: &'static str, value: String, cause: IoFailure },
    NoUserHome,
}

/// The kind of I/O error that a `HomeError` stands for.
pub enum HomeErrorKind {
    NotFound,
    InvalidInput,
    /// The kind of the underlying failure.
    Underlying(std::io::ErrorKind),
}

/// The values that home resolution uses: `(product_home, legacy_codex_home)`,
/// from the raw values of the product's home variable and of `CODEX_HOME`.
/// Empty values count as unset, and the legacy value applies only to a
/// product whose own variable is not `CODEX_HOME`.
pub open spec fn home_env_spec(
    home_env: Seq<char>,
    product_raw: Option<Seq<char>>,
    codex_raw: Option<Seq<char>>,
) -> (Option<Seq<char>>, Option<Seq<char>>) {
    (set_value(product_raw), if home_env != "CODEX_HOME"@ {
        set_value(codex_raw)
    } else {
        None
    })
}

fn set_or_none(v: Option<&str>) -> (r: Option<String>)
    ensures
        opt_string_view(r) == set_value(opt_view(v)),
{
    match v {
        Some(s) => if s.is_empty() {
            None
        } else {
            Some(String::from_str(s))
        },
        None => None,
    }
}

/// Applies the environment rules of home resolution to the raw values of the
/// product's home variable and of `CODEX_HOME`.
pub fn home_env_values(product: &ProductInfo, product_raw: Option<&str>, codex_raw: Option<&str>) -> (r: (
    Option<String>,
    Option<String>,
))
    ensures
        (opt_string_view(r.0), opt_string_view(r.1)) == home_env_spec(
            product.home_env@,
            opt_view(product_raw),
            opt_view(codex_raw),
        ),
{
    let product_home = set_or_none(product_raw);
    let legacy = if str_eq(product.home_env, CODEX_HOME_ENV) {
        None
    } else {
        set_or_none(codex_raw)
    };
    (product_home, legacy)
}

/// The step that home resolution starts with: the product's own variable
/// wins, then the legacy `CODEX_HOME`, then the default directory.
pub open spec fn start_spec(
    product: ProductInfo,
    product_home: Option<Seq<char>>,
    legacy: Option<Seq<char>>,
) -> (Seq<char>, Option<Seq<char>>) {
    match (product_home, legacy) {
        (Some(v), _) => (product.home_env@, Some(v)),
        (None, Some(v)) => ("CODEX_HOME"@, Some(v)),
        (None, None) => (product.home_env@, None),
    }
}

/// Starts home resolution from the product and the (already filtered) values
/// of its home variable and of the legacy `CODEX_HOME`.
pub fn start_home_resolution(
    product: &ProductInfo,
    product_home: Option<&str>,
    legacy: Option<&str>,
) -> (step: HomeStep)
    ensures
        ({
            let (env_name, configured) = start_spec(
                *product,
                opt_view(product_home),
                opt_view(legacy),
            );
            match configured {
                Some(v) => step matches HomeStep::CheckPath { env_name: e, value } && e@
                    == env_name && value@ == v,
                None => step matches HomeStep::LocateUserHome { dir_name } && dir_name
                    == product.default_home_dir,
            }
        }),
{
    match (product_home, legacy) {
        (Some(v), _) => HomeStep::CheckPath {
            env_name: product.home_env,
            value: String::from_str(v),
        },
        (None, Some(v)) => HomeStep::CheckPath {
            env_name: CODEX_HOME_ENV,
            value: String::from_str(v),
        },
        (None, None) => HomeStep::LocateUserHome { dir_name: product.default_home_dir },
    }
}

/// Whether a step is waiting for an event of the matching kind.
pub open spec fn accepts(step: HomeStep, event: HomeEvent) -> bool {
    match step {
        HomeStep::CheckPath { .. } => event is Metadata,
        HomeStep::Canonicalize { .. } => event is Canonical,
        HomeStep::LocateUserHome { .. } => event is UserHome,
        HomeStep::Done(_) => false,
    }
}

/// The step after `step`, given what the caller observed.
pub open spec fn advance_spec(step: HomeStep, event: HomeEvent) -> HomeStep {
    match (step, event) {
        (HomeStep::CheckPath { env_name, value }, HomeEvent::Metadata(probe)) => match probe {
            PathProbe::Missing => HomeStep::Done(Err(HomeError::Missing { env_name, value })),
            PathProbe::Unreadable(cause) => HomeStep::Done(
                Err(HomeError::Unreadable { env_name, value, cause }),
            ),
            PathProbe::NotDirectory => HomeStep::Done(
                Err(HomeError::NotDirectory { env_name, value }),
            ),
            PathProbe::Directory => HomeStep::Canonicalize { env_name, value },
        },
        (HomeStep::Canonicalize { env_name, value }, HomeEvent::Canonical(result)) => match result {
            Ok(path) => HomeStep::Done(Ok(HomeLocation::Canonical(path))),
            Err(cause) => HomeStep::Done(
                Err(HomeError::CanonicalizeFailed { env_name, value, cause }),
            ),
        },
        (HomeStep::LocateUserHome { dir_name }, HomeEvent::UserHome(home)) => match home {
            Some(base) => HomeStep::Done(Ok(HomeLocation::Joined { base, child: dir_name })),
            None => HomeStep::Done(Err(HomeError::NoUserHome)),
        },
        (s, _) => s,
    }
}

/// Advances home resolution with the result of the step the caller performed.
pub fn advance_home_resolution(step: HomeStep, event: HomeEvent) -> (next: HomeStep)
    requires
        accepts(step, event),
    ensures
        next == advance_spec(step, event),
{
    match (step, event) {
        (HomeStep::CheckPath { env_name, value }, HomeEvent::Metadata(probe)) => match probe {
            PathProbe::Missing => HomeStep::Done(Err(HomeError::Missing { env_name, value })),
            PathProbe::Unreadable(cause) => HomeStep::Done(
                Err(HomeError::Unreadable { env_name, value, cause }),
            ),
            PathProbe::NotDirectory => HomeStep::Done(
                Err(HomeError::NotDirectory { env_name, value }),
            ),
            PathProbe::Directory => HomeStep::Canonicalize { env_name, value },
        },
        (HomeStep::Canonicalize { env_name, value }, HomeEvent::Canonical(result)) => match result {
            Ok(path) => HomeStep::Done(Ok(HomeLocation::Canonical(path))),
            Err(cause) => HomeStep::Done(
                Err(HomeError::CanonicalizeFailed { env_name, value, cause }),
            ),
        },
        (HomeStep::LocateUserHome { dir_name }, HomeEvent::UserHome(home)) => match home {
            Some(base) => HomeStep::Done(Ok(HomeLocation::Joined { base, child: dir_name })),
            None => HomeStep::Done(Err(HomeError::NoUserHome)),
        },
        (s, _) => s,
    }
}

/// The `Debug` rendering of a string: the text in double quotes with special
/// characters escaped.
pub uninterp spec fn str_debug(s: Seq<char>) -> Seq<char>;

/// Formats `s` with std's `Debug` implementation for `str` (`format!("{:?}")`).
///
/// The result is named by `str_debug` over the characters of `s`; its exact
/// escaping rules are not restated.
#[verifier::external_body]
fn debug_quoted(s: &str) -> (r: String)
    ensures
        r@ == str_debug(s@),
{
    format!("{:?}", s)
}

/// The text of an error that concerns `env_name` and its value `value`.
pub open spec fn home_error_message(e: HomeError) -> Seq<char> {
    match e {
        HomeError::Missing { env_name, value } => env_name@ + " points to "@ + str_debug(value@)
            + ", but that path does not exist"@,
        HomeError::Unreadable { env_name, value, cause } => "failed to read "@ + env_name@
            + " "@ + str_debug(value@) + ": "@ + cause.detail@,
        HomeError::NotDirectory { env_name, value } => env_name@ + " points to "@ + str_debug(
            value@,
        ) + ", but that path is not a directory"@,
        HomeError::CanonicalizeFailed { env_name, value, cause } => "failed to canonicalize "@
            + env_name@ + " "@ + str_debug(value@) + ": "@ + cause.detail@,
        HomeError::NoUserHome => "Could not find home directory"@,
    }
}

impl HomeError {
    /// The kind of I/O error this failure is reported as.
    pub fn kind(&self) -> (k: HomeErrorKind)
        ensures
            match self {
                HomeError::Missing { .. } => k is NotFound,
                HomeError::NoUserHome => k is NotFound,
                HomeError::NotDirectory { .. } => k is InvalidInput,
                HomeError::Unreadable { cause, .. } => k == HomeErrorKind::Underlying(cause.kind),
                HomeError::CanonicalizeFailed { cause, .. } => k == HomeErrorKind::Underlying(
                    cause.kind,
                ),
            },
    {
        match self {
            HomeError::Missing { .. } => HomeErrorKind::NotFound,
            HomeError::NoUserHome => HomeErrorKind::NotFound,
            HomeError::NotDirectory { .. } => HomeErrorKind::InvalidInput,
            HomeError::Unreadable { cause, .. } => HomeErrorKind::Underlying(cause.kind),
            HomeError::CanonicalizeFailed { cause, .. } => HomeErrorKind::Underlying(cause.kind),
        }
    }

    /// The message reported for this failure.
    pub fn message(&self) -> (m: String)
        ensures
            m@ == home_error_message(*self),
    {
        match self {
            HomeError::Missing { env_name, value } => {
                let mut m = String::from_str(env_name);
                m.append(" points to ");
                m.append(debug_quoted(value.as_str()).as_str());
                m.append(", but that path does not exist");
                m
            },
            HomeError::Unreadable { env_name, value, cause } => {
                let mut m = String::from_str("failed to read ");
                m.append(env_name);
                m.append(" ");
                m.append(debug_quoted(value.as_str()).as_str());
                m.append(": ");
                m.append(cause.detail.as_str());
                m
            },
            HomeError::NotDirectory { env_name, value } => {
                let mut m = String::from_str(env_name);
                m.append(" points to ");
                m.append(debug_quoted(value.as_str()).as_str());
                m.append(", but that path is not a directory");
                m
            },
            HomeError::CanonicalizeFailed { env_name, value, cause } => {
                let mut m = String::from_str("failed to canonicalize ");
                m.append(env_name);
                m.append(" ");
                m.append(debug_quoted(value.as_str()).as_str());
                m.append(": ");
                m.append(cause.detail.as_str());
                m
            },
            HomeError::NoUserHome => String::from_str("Could not find home directory"),
        }
    }
}

/// When the product's own home variable is set, it decides the home, whatever
/// the legacy `CODEX_HOME` says.
pub proof fn law_product_home_takes_precedence(
    product: ProductInfo,
    value: Seq<char>,
    legacy_a: Option<Seq<char>>,
    legacy_b: Option<Seq<char>>,
)
    ensures
        start_spec(product, Some(value), legacy_a) == start_spec(product, Some(value), legacy_b),
        start_spec(product, Some(value), legacy_a) == (product.home_env@, Some(value)),
{
}

/// Upstream Codex, whose own variable is `CODEX_HOME`, never takes a legacy
/// value, and an empty variable counts as unset.
pub proof fn law_home_env_filtering(
    product_raw: Option<Seq<char>>,
    codex_raw: Option<Seq<char>>,
    home_env: Seq<char>,
)
    ensures
        home_env_spec("CODEX_HOME"@, product_raw, codex_raw).1 is None,
        home_env_spec(home_env, Some(Seq::<char>::empty()), codex_raw).0 is None,
        home_env != "CODEX_HOME"@ ==> home_env_spec(home_env, product_raw, codex_raw).1
            == set_value(codex_raw),
{
}

} // verus!
