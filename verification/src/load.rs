//! Loading: from path and file content to a configuration or a fatal error.
//!
//! Reading the file itself is left to the caller (it is the only part that
//! touches the file system); everything after the read - parsing, schema
//! binding, and the choice of error - is decided here.  There are exactly
//! two errors, both fatal to the caller: a read failure naming the path, and
//! a parse failure carrying a diagnostic.

use vstd::prelude::*;
use vstd::string::StringExecFns;
use crate::bind::{bind_configuration, spec_bind_config};
use crate::parse::{all_digits, digit_val, digits_value, is_digit, parse_document, spec_parse};
use crate::schema::{Configuration, ConfigurationView};

verus! {

broadcast use vstd::std_specs::vec::group_vec_axioms, vstd::string::group_string_axioms;

/// Why a load failed.  Both cases are fatal: no default is substituted.
#[derive(Debug)]
pub enum ConfigError {
    /// The file could not be read; holds the attempted path.
    Read { path: String },
    /// The content is not a valid document or does not match the schema;
    /// holds a diagnostic.
    Parse { detail: String },
}

impl ConfigError {
    /// A human-readable description of the failure.
    pub fn message(&self) -> (m: String)
        ensures
            match self {
                ConfigError::Read { path } => m@ == "failed to read config file at '"@ + path@
                    + "'"@,
                ConfigError::Parse { detail } => m@ == "failed to parse config: "@ + detail@,
            },
    {
        match self {
            ConfigError::Read { path } => String::from_str("failed to read config file at '")
                .concat(path.as_str()).concat("'"),
            ConfigError::Parse { detail } => String::from_str("failed to parse config: ").concat(
                detail.as_str(),
            ),
        }
    }
}

/// One decimal digit as text.
fn digit_str(d: u64) -> (r: &'static str)
    requires
        d < 10,
    ensures
        r@.len() == 1,
        is_digit(r@[0]),
        digit_val(r@[0]) == d,
{
    proof {
        reveal_strlit("0");
        reveal_strlit("1");
        reveal_strlit("2");
        reveal_strlit("3");
        reveal_strlit("4");
        reveal_strlit("5");
        reveal_strlit("6");
        reveal_strlit("7");
        reveal_strlit("8");
        reveal_strlit("9");
    }
    match d {
        0 => "0",
        1 => "1",
        2 => "2",
        3 => "3",
        4 => "4",
        5 => "5",
        6 => "6",
        7 => "7",
        8 => "8",
        _ => "9",
    }
}

/// A number rendered in decimal, most significant digit first.
fn u64_to_string(v: u64) -> (r: String)
    ensures
        r@.len() >= 1,
        all_digits(r@),
        digits_value(r@) == v,
    decreases v,
{
    let ds = digit_str(v % 10);
    if v < 10 {
        let r: String = ds.to_owned();
        proof {
            assert(r@.drop_last() =~= Seq::<char>::empty());
            assert(digits_value(Seq::<char>::empty()) == 0);
            assert(r@.last() == ds@[0]);
            assert(v % 10 == v);
            assert(digits_value(r@) == v);
        }
        r
    } else {
        let prefix = u64_to_string(v / 10);
        let r = prefix.concat(ds);
        proof {
            assert(r@.drop_last() =~= prefix@);
            assert(r@.last() == ds@[0]);
            assert(all_digits(r@)) by {
                assert(forall|i: int|
                    0 <= i < prefix@.len() ==> is_digit(#[trigger] r@[i]) && r@[i] == prefix@[i]);
            }
            assert(digits_value(r@) == digits_value(prefix@) * 10 + digit_val(r@.last()));
            assert(v / 10 * 10 + v % 10 == v) by (nonlinear_arith);
        }
        r
    }
}

/// What configuration text loads to: the document parsed and bound against
/// the schema, or nothing where either step fails.
pub open spec fn spec_load(s: Seq<char>) -> Option<ConfigurationView> {
    match spec_parse(s) {
        Some(y) => spec_bind_config(y),
        None => None,
    }
}

/// Parses configuration text against the schema, exactly as `spec_load`
/// says.  A failure is always a parse error, never a read error.
pub fn parse_config(text: &str) -> (r: Result<Configuration, ConfigError>)
    ensures
        match r {
            Ok(c) => spec_load(text@) == Some(c@),
            Err(e) => e is Parse && spec_load(text@) is None,
        },
{
    match parse_document(text) {
        Ok(y) => match bind_configuration(&y) {
            Some(c) => Ok(c),
            None => Err(
                ConfigError::Parse {
                    detail: String::from_str("document does not match the configuration schema"),
                },
            ),
        },
        Err(line) => {
            let detail = String::from_str("invalid configuration syntax at line ").concat(
                u64_to_string(line as u64).as_str(),
            );
            Err(ConfigError::Parse { detail })
        },
    }
}

/// One load attempt.  `content` is the file's text where the read succeeded
/// and `None` where it failed; the caller performs the read.  A missing file
/// is a read error naming the path, and nothing else is; with content in
/// hand the outcome is exactly what `spec_load` says of the text, so two
/// loads of the same text always agree.
pub fn load_config(path: &str, content: Option<&str>) -> (r: Result<Configuration, ConfigError>)
    ensures
        content is None <==> (r matches Err(ConfigError::Read { path: p }) && p@ == path@),
        r matches Err(ConfigError::Read { .. }) ==> content is None,
        match content {
            Some(text) => match r {
                Ok(c) => spec_load(text@) == Some(c@),
                Err(e) => e is Parse && spec_load(text@) is None,
            },
            None => r is Err,
        },
{
    match content {
        Some(text) => parse_config(text),
        None => Err(ConfigError::Read { path: path.to_owned() }),
    }
}

/// The built-in configuration path used when no override is given.
pub open spec fn spec_default_path() -> Seq<char> {
    "/sdcard/Android/fmiop/config.yaml"@
}

/// The built-in configuration path.
pub fn default_path() -> (p: String)
    ensures
        p@ == spec_default_path(),
{
    String::from_str("/sdcard/Android/fmiop/config.yaml")
}

/// The index of the first `--config` argument at or after `i`.
pub open spec fn find_flag(args: Seq<Seq<char>>, i: int) -> Option<int>
    decreases args.len() - i
        when 0 <= i <= args.len()
{
    if i >= args.len() {
        None
    } else if args[i] == "--config"@ {
        Some(i)
    } else {
        find_flag(args, i + 1)
    }
}

/// The path the loader will use, and whether a warning is owed: the argument
/// after the first `--config` where there is one; the default path where the
/// flag is absent (no warning) or dangles at the end (warning).
pub open spec fn spec_resolve(args: Seq<Seq<char>>) -> (Seq<char>, bool) {
    match find_flag(args, 0) {
        Some(p) => if p + 1 < args.len() {
            (args[p + 1], false)
        } else {
            (spec_default_path(), true)
        },
        None => (spec_default_path(), false),
    }
}

/// Chooses the effective configuration path from the command-line
/// arguments, exactly as `spec_resolve` says; the second component asks the
/// caller to warn about a dangling `--config`.
pub fn resolve_config_path(args: &Vec<String>) -> (r: (String, bool))
    ensures
        r.0@ == spec_resolve(args.deep_view()).0,
        r.1 == spec_resolve(args.deep_view()).1,
{
    let ghost dv = args.deep_view();
    let n = args.len();
    for i in 0..n
        invariant
            n == args.len(),
            dv == args.deep_view(),
            dv.len() == n,
            forall|j: int| 0 <= j < n ==> #[trigger] dv[j] == args@[j]@,
            find_flag(dv, 0) == find_flag(dv, i as int),
    {
        let hit = crate::parse::str_eq(args[i].as_str(), "--config");
        if hit {
            if i + 1 < n {
                return (args[i + 1].clone(), false);
            }
            return (default_path(), true);
        }
    }
    (default_path(), false)
}

} // verus!
