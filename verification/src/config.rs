//! Configuration: generating the config file's content and reading the
//! external tool's install directory back out of it. Parsing is done by the
//! ini crate behind a trusted wrapper; reading and writing the file itself
//! is the caller's business.
use vstd::prelude::*;

verus! {

/// What the ini parser finds under `[section]` / `key` in `text`: the value
/// when `text` parses and carries the key, `None` otherwise. A pure
/// function of the three strings.
pub uninterp spec fn ini_lookup(
    text: Seq<char>,
    section: Seq<char>,
    key: Seq<char>,
) -> Option<Seq<char>>;

/// Relies on rust-ini's `Ini::load_from_str`, `Ini::section` and
/// `Properties::get`: parsing is deterministic (default parse options), so
/// the value found for `key` under `[section]` is a function of the text
/// alone; `None` when the text does not parse or the key is absent.
#[verifier::external_body]
fn ini_section_value(text: &str, section: &str, key: &str) -> (r: Option<String>)
    ensures
        match r {
            Option::Some(v) => ini_lookup(text@, section@, key@) == Option::Some(v@),
            Option::None => ini_lookup(text@, section@, key@) is None,
        },
{
    match ini::Ini::load_from_str(text) {
        Ok(conf) => conf.section(Some(section)).and_then(|s| s.get(key)).map(
            |v| v.to_string(),
        ),
        Err(_) => None,
    }
}

/// A fatal configuration error: the config text does not parse, or it does
/// not carry the external tool's install directory.
#[derive(Debug, Clone, Copy, PartialEq, Eq, Structural)]
pub enum ConfigError {
    InvalidConfig,
}

/// The external tool's install directory, read from the configuration
/// text: the value under `[General]` / `nvtoolsdirectory`. Succeeds exactly
/// when the text parses and carries that key.
pub fn load_nvtools_path(config_text: &str) -> (r: Result<String, ConfigError>)
    ensures
        match r {
            Result::Ok(dir) => ini_lookup(config_text@, "General"@, "nvtoolsdirectory"@)
                == Option::Some(dir@),
            Result::Err(e) => ini_lookup(config_text@, "General"@, "nvtoolsdirectory"@) is None
                && e == ConfigError::InvalidConfig,
        },
{
    match ini_section_value(config_text, "General", "nvtoolsdirectory") {
        Option::Some(dir) => Result::Ok(dir),
        Option::None => Result::Err(ConfigError::InvalidConfig),
    }
}

/// The lines of a fresh config file pointing at `nvtools_dir` — or `None`
/// when a config file already exists and the caller reports that the user
/// declined to overwrite it. The caller writes the lines, in order, each as
/// one line of the file.
pub fn generate_config_file(
    config_exists: bool,
    overwrite: bool,
    nvtools_dir: &str,
) -> (r: Option<Vec<String>>)
    ensures
        match r {
            Option::None => config_exists && !overwrite,
            Option::Some(lines) => (!config_exists || overwrite) && lines@.len() == 2
                && lines@[0]@ == "[General]"@ && lines@[1]@ == "nvtoolsdirectory = "@
                + nvtools_dir@,
        },
{
    if config_exists && !overwrite {
        return Option::None;
    }
    let mut value_line = String::from_str("nvtoolsdirectory = ");
    value_line.append(nvtools_dir);
    let mut lines: Vec<String> = Vec::new();
    lines.push(String::from_str("[General]"));
    lines.push(value_line);
    Option::Some(lines)
}

} // verus!
