//! Where the default directory is remembered, and how a remembered value is
//! read back. Reading the environment and the file, and writing or removing
//! the file, are the caller's.

use vstd::prelude::*;
use vstd::utf8::{decode_utf8, valid_utf8};

verus! {

/// Which of the environment variables that locate the configuration
/// directory are set, and whether the platform is Windows.
pub struct ConfigEnv {
    pub windows: bool,
    pub appdata: bool,
    pub userprofile: bool,
    pub xdg_config_home: bool,
    pub home: bool,
}

/// The environment variable whose value is the base of the configuration
/// file's path.
#[derive(Debug, Clone, Copy, PartialEq, Eq)]
pub enum BaseVar {
    AppData,
    UserProfile,
    XdgConfigHome,
    Home,
}

impl BaseVar {
    /// The variable's name.
    pub fn var_name(&self) -> (name: &'static str)
        ensures
            *self == BaseVar::AppData ==> name@ == "APPDATA"@,
            *self == BaseVar::UserProfile ==> name@ == "USERPROFILE"@,
            *self == BaseVar::XdgConfigHome ==> name@ == "XDG_CONFIG_HOME"@,
            *self == BaseVar::Home ==> name@ == "HOME"@,
    {
        match self {
            BaseVar::AppData => "APPDATA",
            BaseVar::UserProfile => "USERPROFILE",
            BaseVar::XdgConfigHome => "XDG_CONFIG_HOME",
            BaseVar::Home => "HOME",
        }
    }
}

/// The configuration file's path: the value of `base`, then `parts`, joined
/// by the platform's path rules.
#[derive(Debug)]
pub struct ConfigPath {
    pub base: BaseVar,
    pub parts: Vec<String>,
}

/// Why the configuration file cannot be located.
#[derive(Debug, Clone, Copy, PartialEq, Eq)]
pub enum ConfigError {
    /// None of the variables that name a base directory is set.
    NoConfigDir,
}

/// Where the configuration file is: on Windows under `%APPDATA%` (else
/// `%USERPROFILE%`, else `%HOME%`), in `txtbatch\config.ini`; elsewhere under
/// `$XDG_CONFIG_HOME` in `txtbatch/config.ini`, else under `$HOME` in
/// `.config/txtbatch/config.ini`. None when no such variable is set.
pub open spec fn config_path(env: ConfigEnv) -> Option<(BaseVar, Seq<Seq<char>>)> {
    let tail = seq!["txtbatch"@, "config.ini"@];
    if env.windows {
        if env.appdata {
            Some((BaseVar::AppData, tail))
        } else if env.userprofile {
            Some((BaseVar::UserProfile, tail))
        } else if env.home {
            Some((BaseVar::Home, tail))
        } else {
            None
        }
    } else if env.xdg_config_home {
        Some((BaseVar::XdgConfigHome, tail))
    } else if env.home {
        Some((BaseVar::Home, seq![".config"@] + tail))
    } else {
        None
    }
}

/// The views of a list of strings.
pub open spec fn texts(parts: Seq<String>) -> Seq<Seq<char>> {
    parts.map_values(|s: String| s@)
}

/// Where the configuration file is, as the variable that gives its base
/// directory and the components that follow it.
pub fn config_file(env: &ConfigEnv) -> (res: Result<ConfigPath, ConfigError>)
    ensures
        config_path(*env) is None <==> res is Err,
        res matches Ok(p) ==> (p.base, texts(p.parts@)) == config_path(*env)->Some_0,
{
    let mut parts: Vec<String> = Vec::new();
    let base = if env.windows {
        if env.appdata {
            BaseVar::AppData
        } else if env.userprofile {
            BaseVar::UserProfile
        } else if env.home {
            BaseVar::Home
        } else {
            return Err(ConfigError::NoConfigDir);
        }
    } else if env.xdg_config_home {
        BaseVar::XdgConfigHome
    } else if env.home {
        parts.push(".config".to_owned());
        BaseVar::Home
    } else {
        return Err(ConfigError::NoConfigDir);
    };
    parts.push("txtbatch".to_owned());
    parts.push("config.ini".to_owned());
    assert(texts(parts@) =~= config_path(*env)->Some_0.1);
    Ok(ConfigPath { base, parts })
}

/// Whether a character has the Unicode `White_Space` property (the test of
/// `char::is_whitespace` and `str::trim`): U+0009 to U+000D, U+0020, U+0085,
/// U+00A0, U+1680, U+2000 to U+200A, U+2028, U+2029, U+202F, U+205F, U+3000.
pub open spec fn white_space(c: char) -> bool {
    let u = c as u32;
    ||| 0x9 <= u <= 0xd
    ||| u == 0x20
    ||| u == 0x85
    ||| u == 0xa0
    ||| u == 0x1680
    ||| 0x2000 <= u <= 0x200a
    ||| u == 0x2028
    ||| u == 0x2029
    ||| u == 0x202f
    ||| u == 0x205f
    ||| u == 0x3000
}

/// Whether `c` is white space.
pub fn is_white_space(c: char) -> (ws: bool)
    ensures
        ws == white_space(c),
{
    let u = c as u32;
    (0x9 <= u && u <= 0xd) || u == 0x20 || u == 0x85 || u == 0xa0 || u == 0x1680 || (0x2000 <= u
        && u <= 0x200a) || u == 0x2028 || u == 0x2029 || u == 0x202f || u == 0x205f || u == 0x3000
}

pub open spec fn strip_front_white(s: Seq<char>) -> Seq<char>
    decreases s.len(),
{
    if s.len() > 0 && white_space(s[0]) {
        strip_front_white(s.drop_first())
    } else {
        s
    }
}

pub open spec fn strip_back_white(s: Seq<char>) -> Seq<char>
    decreases s.len(),
{
    if s.len() > 0 && white_space(s.last()) {
        strip_back_white(s.drop_last())
    } else {
        s
    }
}

/// `s` without leading and trailing white space.
pub open spec fn trim_white(s: Seq<char>) -> Seq<char> {
    strip_back_white(strip_front_white(s))
}

pub open spec fn strip_front_nul(s: Seq<char>) -> Seq<char>
    decreases s.len(),
{
    if s.len() > 0 && s[0] == '\0' {
        strip_front_nul(s.drop_first())
    } else {
        s
    }
}

pub open spec fn strip_back_nul(s: Seq<char>) -> Seq<char>
    decreases s.len(),
{
    if s.len() > 0 && s.last() == '\0' {
        strip_back_nul(s.drop_last())
    } else {
        s
    }
}

/// `s` without leading and trailing NUL characters.
pub open spec fn trim_nul(s: Seq<char>) -> Seq<char> {
    strip_back_nul(strip_front_nul(s))
}

/// `s` without leading and trailing white space (what `str::trim` gives).
pub fn trim_white_chars(s: &str) -> (t: String)
    ensures
        t@ == trim_white(s@),
{
    let n = s.unicode_len();
    let mut i: usize = 0;
    assert(s@.subrange(0, n as int) =~= s@);
    while i < n && is_white_space(s.get_char(i))
        invariant
            i <= n,
            n == s@.len(),
            strip_front_white(s@.subrange(i as int, n as int)) == strip_front_white(s@),
        decreases n - i,
    {
        assert(s@.subrange(i as int, n as int).drop_first() =~= s@.subrange(i + 1, n as int));
        i += 1;
    }
    assert(strip_front_white(s@) == s@.subrange(i as int, n as int));
    let mut j: usize = n;
    while j > i && is_white_space(s.get_char(j - 1))
        invariant
            i <= j <= n,
            n == s@.len(),
            strip_back_white(s@.subrange(i as int, j as int)) == strip_back_white(
                s@.subrange(i as int, n as int),
            ),
        decreases j,
    {
        assert(s@.subrange(i as int, j as int).drop_last() =~= s@.subrange(i as int, j - 1));
        j -= 1;
    }
    s.substring_char(i, j).to_owned()
}

/// `s` without leading and trailing NUL characters.
pub fn trim_nul_chars(s: &str) -> (t: String)
    ensures
        t@ == trim_nul(s@),
{
    let n = s.unicode_len();
    let mut i: usize = 0;
    assert(s@.subrange(0, n as int) =~= s@);
    while i < n && s.get_char(i) == '\0'
        invariant
            i <= n,
            n == s@.len(),
            strip_front_nul(s@.subrange(i as int, n as int)) == strip_front_nul(s@),
        decreases n - i,
    {
        assert(s@.subrange(i as int, n as int).drop_first() =~= s@.subrange(i + 1, n as int));
        i += 1;
    }
    assert(strip_front_nul(s@) == s@.subrange(i as int, n as int));
    let mut j: usize = n;
    while j > i && s.get_char(j - 1) == '\0'
        invariant
            i <= j <= n,
            n == s@.len(),
            strip_back_nul(s@.subrange(i as int, j as int)) == strip_back_nul(
                s@.subrange(i as int, n as int),
            ),
        decreases j,
    {
        assert(s@.subrange(i as int, j as int).drop_last() =~= s@.subrange(i as int, j - 1));
        j -= 1;
    }
    s.substring_char(i, j).to_owned()
}

/// The cleaned form of a remembered value: white space, then NUL characters,
/// then white space again, trimmed from both ends.
pub open spec fn cleaned_value(raw: Seq<char>) -> Seq<char> {
    trim_white(trim_nul(trim_white(raw)))
}

/// The directory a stored value names: the cleaned value, or none when there
/// is no value or the cleaned value is blank.
pub open spec fn cleaned_option(stored: Option<Seq<char>>) -> Option<Seq<char>> {
    match stored {
        Some(raw) => if cleaned_value(raw).len() == 0 {
            None
        } else {
            Some(cleaned_value(raw))
        },
        None => None,
    }
}

/// The view of an optional string.
pub open spec fn view_option(o: Option<String>) -> Option<Seq<char>> {
    match o {
        Some(s) => Some(s@),
        None => None,
    }
}

/// The directory named by the value stored under `dir` in the `[default]`
/// section (`None` when there is no such value).
pub fn clean_dir_value(stored: Option<&str>) -> (dir: Option<String>)
    ensures
        view_option(dir) == cleaned_option(
            match stored {
                Some(raw) => Some(raw@),
                None => None,
            },
        ),
{
    match stored {
        None => None,
        Some(raw) => {
            let once = trim_white_chars(raw);
            let no_nul = trim_nul_chars(once.as_str());
            let cleaned = trim_white_chars(no_nul.as_str());
            if cleaned.as_str().is_empty() {
                None
            } else {
                Some(cleaned)
            }
        },
    }
}

/// What rust-ini's parser (`Ini::load_from_str`) finds under `key` in section
/// `section` of `text`: `None` when the text does not parse, `Some(None)` when
/// it holds no such value.
pub uninterp spec fn ini_value(text: Seq<char>, section: Seq<char>, key: Seq<char>) -> Option<
    Option<Seq<char>>,
>;

/// `Ini::load_from_str(text)`, then `get_from(Some(section), key)`.
///
/// Trusted: the result depends on the three strings alone.
#[verifier::external_body]
fn parse_ini_value(text: &str, section: &str, key: &str) -> (r: Option<Option<String>>)
    ensures
        r is None <==> ini_value(text@, section@, key@) is None,
        r matches Some(v) ==> ini_value(text@, section@, key@) == Some(view_option(v)),
{
    match ini::Ini::load_from_str(text) {
        Ok(conf) => Some(conf.get_from(Some(section), key).map(|v| v.to_string())),
        Err(_) => None,
    }
}

/// A section or key name made of ASCII letters and digits only.
pub open spec fn plain_name(s: Seq<char>) -> bool {
    &&& s.len() > 0
    &&& forall|i: int|
        0 <= i < s.len() ==> {
            let u = #[trigger] s[i] as u32;
            (0x30 <= u <= 0x39) || (0x41 <= u <= 0x5a) || (0x61 <= u <= 0x7a)
        }
}

/// A value that rust-ini writes and reads back unchanged: it holds no
/// U+000B or U+000C (which the writer escapes as `\v` and `\f`, sequences the
/// reader does not decode), and, when not empty, neither begins nor ends with
/// white space (which the reader trims) nor begins with a quote (which the
/// reader takes as opening a quoted value).
pub open spec fn ini_safe_value(v: Seq<char>) -> bool {
    &&& forall|i: int| 0 <= i < v.len() ==> #[trigger] v[i] != '\u{b}' && v[i] != '\u{c}'
    &&& v.len() > 0 ==> {
        &&& !white_space(v[0])
        &&& !white_space(v.last())
        &&& v[0] != '"'
        &&& v[0] != '\''
    }
}

/// The bytes rust-ini writes for a document holding only `key = value` in
/// section `section`. Its lines end in "\r\n" in a Windows build and in "\n"
/// elsewhere; each build writes the same bytes for the same strings.
pub uninterp spec fn ini_document(section: Seq<char>, key: Seq<char>, value: Seq<char>) -> Seq<u8>;

/// `Ini::new()`, `with_section(Some(section)).set(key, value)`, then
/// `write_to` into a byte buffer.
///
/// Trusted: the bytes depend on the three strings alone; the writer formats
/// strings, so its output is UTF-8 and, for this document, starts with the
/// section header's `[`. From the writer (`escape_str` under the default
/// escape policy) and the reader (`parse_section`, `parse_key`, `parse_val`,
/// `parse_str_until`) of rust-ini 0.21.3: with plain section and key names
/// and a value that `ini_safe_value` admits, reading the bytes back gives the
/// value. Which bytes are written is not stated.
#[verifier::external_body]
fn ini_bytes(section: &str, key: &str, value: &str) -> (b: Vec<u8>)
    ensures
        b@ == ini_document(section@, key@, value@),
        valid_utf8(b@),
        decode_utf8(b@).len() > 0 && decode_utf8(b@)[0] == '[',
        plain_name(section@) && plain_name(key@) && ini_safe_value(value@) ==> ini_value(
            decode_utf8(b@),
            section@,
            key@,
        ) == Some(Some(value@)),
{
    let mut conf = ini::Ini::new();
    conf.with_section(Some(section)).set(key, value);
    let mut out: Vec<u8> = Vec::new();
    let _ = conf.write_to(&mut out);
    out
}

/// Why the configuration file cannot be read.
#[derive(Debug, Clone, Copy, PartialEq, Eq)]
pub enum ConfigFileError {
    /// The file is not a valid INI document.
    Unparsable,
}

/// `text` without a leading byte order mark.
pub open spec fn without_bom(text: Seq<char>) -> Seq<char> {
    if text.len() > 0 && text[0] == '\u{feff}' {
        text.drop_first()
    } else {
        text
    }
}

/// What loading a configuration file with contents `text` gives: `None` when
/// it does not parse, otherwise the remembered directory, if any.
pub open spec fn loaded_dir(text: Seq<char>) -> Option<Option<Seq<char>>> {
    match ini_value(without_bom(text), "default"@, "dir"@) {
        Some(value) => Some(cleaned_option(value)),
        None => None,
    }
}

/// The remembered directory, from the contents of the configuration file
/// (`None` when there is no file): a leading byte order mark is skipped, the
/// text is parsed as INI, and the value under `dir` in section `[default]` is
/// cleaned.
pub fn load_dir(file_text: Option<&str>) -> (r: Result<Option<String>, ConfigFileError>)
    ensures
        file_text is None ==> (r matches Ok(d) && d is None),
        file_text matches Some(text) ==> {
            &&& (r is Err <==> loaded_dir(text@) is None)
            &&& (r matches Ok(d) ==> loaded_dir(text@) == Some(view_option(d)))
        },
{
    match file_text {
        None => Ok(None),
        Some(text) => {
            let n = text.unicode_len();
            let body = if n > 0 && text.get_char(0) == '\u{feff}' {
                text.substring_char(1, n)
            } else {
                text.substring_char(0, n)
            };
            proof {
                assert(text@.subrange(0, n as int) =~= text@);
                assert(text@.subrange(1, n as int) =~= text@.drop_first());
            }
            match parse_ini_value(body, "default", "dir") {
                None => Err(ConfigFileError::Unparsable),
                Some(value) => {
                    let stored = match &value {
                        Some(v) => Some(v.as_str()),
                        None => None,
                    };
                    Ok(clean_dir_value(stored))
                },
            }
        },
    }
}

/// The contents of a configuration file that remembers `dir`: the value under
/// `dir` in section `[default]`. Loading them gives back the directory as
/// cleaned, when rust-ini keeps the value intact.
pub fn save_dir(dir: &str) -> (b: Vec<u8>)
    ensures
        b@ == ini_document("default"@, "dir"@, dir@),
        valid_utf8(b@),
        ini_safe_value(dir@) ==> loaded_dir(decode_utf8(b@)) == Some(cleaned_option(Some(dir@))),
{
    let b = ini_bytes("default", "dir", dir);
    proof {
        reveal_strlit("default");
        reveal_strlit("dir");
        let t = decode_utf8(b@);
        assert(without_bom(t) == t);
    }
    b
}

} // verus!
