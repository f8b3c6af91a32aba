//! Service settings from `key=value` text, with overrides from the
//! environment.
//!
//! Required keys are `host` and `port`; `debug` is optional and defaults to
//! false. Reading the file and the environment is the caller's part.

use vstd::prelude::*;
use vstd::string::StringExecFns;

use crate::grep::split_lines;
use crate::table::StringMap;
use crate::text::{
    chars_of, decimal_value, is_unsigned_decimal, lower_of, lowercase, parse_u16,
    string_from_chars, trim_str, trimmed, unsigned_digits,
};

verus! {

/// The service settings.
#[derive(Clone, Debug, PartialEq, Eq)]
pub struct AppConfig {
    pub host: String,
    pub port: u16,
    pub debug: bool,
}

/// Why settings could not be had.
#[derive(Debug, PartialEq, Eq)]
pub enum ConfigError {
    MissingKey(&'static str),
    InvalidPort(String),
    InvalidBool(String),
    Io(String),
}

/// The key map after one more line of text: a blank line, a line starting
/// with `#` and a line without `=` change nothing; otherwise the trimmed,
/// lowercased text before the first `=` maps to the trimmed text after it.
pub open spec fn kv_step(m: Map<Seq<char>, Seq<char>>, raw: Seq<char>) -> Map<Seq<char>, Seq<char>> {
    let line = trimmed(raw);
    if line.len() == 0 || line[0] == '#' || !line.contains('=') {
        m
    } else {
        let eq = first_index(line, '=');
        m.insert(
            lower_of(trimmed(line.subrange(0, eq))),
            trimmed(line.subrange(eq + 1, line.len() as int)),
        )
    }
}

impl ConfigError {
    /// The message shown to the user.
    pub fn to_string(&self) -> (r: String)
        ensures
            r@ == match self {
                ConfigError::MissingKey(k) => "missing required key: "@ + k@,
                ConfigError::InvalidPort(v) => "invalid port: "@ + v@,
                ConfigError::InvalidBool(v) => "invalid bool: "@ + v@,
                ConfigError::Io(e) => "io error: "@ + e@,
            },
    {
        let (prefix, detail) = match self {
            ConfigError::MissingKey(k) => ("missing required key: ", *k),
            ConfigError::InvalidPort(v) => ("invalid port: ", v.as_str()),
            ConfigError::InvalidBool(v) => ("invalid bool: ", v.as_str()),
            ConfigError::Io(e) => ("io error: ", e.as_str()),
        };
        let mut m = String::from_str(prefix);
        m.append(detail);
        m
    }
}

/// The map from lowercase keys to values of the text's `key=value` lines; a
/// later line for a key overrides an earlier one.
pub open spec fn kv_map(lines: Seq<Seq<char>>) -> Map<Seq<char>, Seq<char>>
    decreases lines.len(),
{
    if lines.len() == 0 {
        Map::empty()
    } else {
        kv_step(kv_map(lines.drop_last()), lines.last())
    }
}

/// Where `c` first occurs in `s`.
pub open spec fn first_index(s: Seq<char>, c: char) -> int
    recommends
        s.contains(c),
{
    choose|i: int| 0 <= i < s.len() && s[i] == c && forall|j: int| 0 <= j < i ==> s[j] != c
}

/// The strings a map holds, by key.
pub open spec fn string_values(m: Map<Seq<char>, String>) -> Map<Seq<char>, Seq<char>> {
    m.map_values(|v: String| v@)
}

/// Splits a trimmed line at its first `=`, when it has one.
fn split_pair(line: &str) -> (r: Option<(String, String)>)
    ensures
        r is Some <==> line@.contains('='),
        r matches Some((k, v)) ==> k@ == line@.subrange(0, first_index(line@, '='))
            && v@ == line@.subrange(first_index(line@, '=') + 1, line@.len() as int),
{
    let chars = chars_of(line);
    let mut i: usize = 0;
    while i < chars.len()
        invariant
            i <= chars@.len(),
            chars@ == line@,
            forall|j: int| 0 <= j < i ==> chars@[j] != '=',
        decreases chars@.len() - i,
    {
        if chars[i] == '=' {
            let mut key: Vec<char> = Vec::new();
            let mut value: Vec<char> = Vec::new();
            let mut j: usize = 0;
            while j < i
                invariant
                    j <= i < chars@.len(),
                    key@ == chars@.subrange(0, j as int),
                decreases i - j,
            {
                key.push(chars[j]);
                j = j + 1;
                assert(key@ =~= chars@.subrange(0, j as int));
            }
            j = i + 1;
            while j < chars.len()
                invariant
                    i < j <= chars@.len(),
                    value@ == chars@.subrange(i + 1, j as int),
                decreases chars@.len() - j,
            {
                value.push(chars[j]);
                j = j + 1;
                assert(value@ =~= chars@.subrange(i + 1, j as int));
            }
            proof {
                assert(line@[i as int] == '=');
                let f = first_index(line@, '=');
                assert(0 <= f < line@.len() && line@[f] == '=' && forall|j: int|
                    0 <= j < f ==> line@[j] != '=');
                assert(f == i as int) by {
                    if f < i {
                        assert(chars@[f] != '=');
                    } else if f > i {
                        assert(line@[i as int] != '=');
                    }
                }
            }
            return Some((string_from_chars(&key), string_from_chars(&value)));
        }
        i = i + 1;
    }
    assert(!line@.contains('=')) by {
        if line@.contains('=') {
            let j = choose|j: int| 0 <= j < line@.len() && line@[j] == '=';
            assert(chars@[j] == '=');
        }
    }
    None
}

fn add_line(map: &mut StringMap<String>, raw: &str)
    ensures
        string_values(final(map)@) == kv_step(string_values(old(map)@), raw@),
{
    let line = trim_str(raw);
    let n = line.unicode_len();
    if n > 0 && line.get_char(0) != '#' {
        match split_pair(line) {
            Some((k, v)) => {
                let key = lowercase(trim_str(k.as_str()));
                let value = String::from_str(trim_str(v.as_str()));
                let ghost before = map@;
                map.insert(key, value);
                assert(string_values(map@) =~= string_values(before).insert(key@, value@));
            },
            None => {},
        }
    }
}

/// Reads the `key=value` lines of `input`; keys are trimmed and lowercased,
/// values trimmed.
pub fn parse_kv(input: &str) -> (m: StringMap<String>)
    ensures
        string_values(m@) == kv_map(crate::grep::lines_of(input@)),
{
    let lines = split_lines(input);
    let ghost ls = crate::grep::lines_of(input@);
    let mut map: StringMap<String> = StringMap::new();
    let mut i: usize = 0;
    assert(ls.subrange(0, 0).len() == 0);
    assert(string_values(map@) =~= kv_map(ls.subrange(0, 0)));
    while i < lines.len()
        invariant
            i <= lines@.len(),
            lines@.len() == ls.len(),
            forall|j: int| 0 <= j < lines@.len() ==> (#[trigger] lines@[j])@ == ls[j],
            string_values(map@) == kv_map(ls.subrange(0, i as int)),
        decreases lines@.len() - i,
    {
        let ghost prefix = ls.subrange(0, i + 1);
        assert(prefix.drop_last() =~= ls.subrange(0, i as int));
        assert(prefix.last() == lines@[i as int]@);
        add_line(&mut map, lines[i].as_str());
        i = i + 1;
    }
    assert(ls.subrange(0, ls.len() as int) =~= ls);
    map
}

/// The words that read as true and as false, in lowercase.
pub open spec fn bool_word(w: Seq<char>) -> Option<bool> {
    if w == "true"@ || w == "1"@ || w == "yes"@ || w == "y"@ {
        Some(true)
    } else if w == "false"@ || w == "0"@ || w == "no"@ || w == "n"@ {
        Some(false)
    } else {
        None
    }
}

/// Reads a lowercase word as a truth value.
pub fn bool_from_word(w: &str) -> (r: Option<bool>)
    ensures
        r == bool_word(w@),
{
    if crate::table::str_eq(w, "true") || crate::table::str_eq(w, "1") || crate::table::str_eq(
        w,
        "yes",
    ) || crate::table::str_eq(w, "y") {
        Some(true)
    } else if crate::table::str_eq(w, "false") || crate::table::str_eq(w, "0")
        || crate::table::str_eq(w, "no") || crate::table::str_eq(w, "n") {
        Some(false)
    } else {
        None
    }
}

/// Reads a truth value, ignoring surrounding whitespace and case.
pub fn parse_bool(s: &str) -> (r: Result<bool, ()>)
    ensures
        r is Ok <==> bool_word(lower_of(trimmed(s@))) is Some,
        r matches Ok(b) ==> bool_word(lower_of(trimmed(s@))) == Some(b),
{
    let lowered = lowercase(trim_str(s));
    match bool_from_word(lowered.as_str()) {
        Some(b) => Ok(b),
        None => Err(()),
    }
}

/// Whether `r` is what the key map `m` gives: the first missing key of
/// `host` and `port`, else an invalid port, else an invalid `debug` value,
/// else the settings, with `debug` false where it is absent.
pub open spec fn built_from(m: Map<Seq<char>, Seq<char>>, r: Result<AppConfig, ConfigError>) -> bool {
    if !m.contains_key("host"@) {
        r == Err::<AppConfig, ConfigError>(ConfigError::MissingKey("host"))
    } else if !m.contains_key("port"@) {
        r == Err::<AppConfig, ConfigError>(ConfigError::MissingKey("port"))
    } else if !is_unsigned_decimal(m["port"@], u16::MAX as nat) {
        r matches Err(ConfigError::InvalidPort(v)) && v@ == m["port"@]
    } else if m.contains_key("debug"@) && bool_word(lower_of(trimmed(m["debug"@]))) is None {
        r matches Err(ConfigError::InvalidBool(v)) && v@ == m["debug"@]
    } else {
        r matches Ok(c) && c.host@ == m["host"@] && c.port == decimal_value(
            unsigned_digits(m["port"@]),
        ) && c.debug == (m.contains_key("debug"@) && bool_word(lower_of(trimmed(m["debug"@])))
            == Some(true))
    }
}

/// Builds the settings from the key map.
pub fn build_config(map: &StringMap<String>) -> (r: Result<AppConfig, ConfigError>)
    ensures
        built_from(string_values(map@), r),
{
    let host = match map.get("host") {
        Some(h) => h.clone(),
        None => return Err(ConfigError::MissingKey("host")),
    };
    let port_raw = match map.get("port") {
        Some(p) => p.clone(),
        None => return Err(ConfigError::MissingKey("port")),
    };
    let port = match parse_u16(port_raw.as_str()) {
        Ok(p) => p,
        Err(_) => return Err(ConfigError::InvalidPort(port_raw)),
    };
    let debug = match map.get("debug") {
        Some(v) => match parse_bool(v.as_str()) {
            Ok(b) => b,
            Err(_) => return Err(ConfigError::InvalidBool(v.clone())),
        },
        None => false,
    };
    Ok(AppConfig { host, port, debug })
}

pub open spec fn opt_view(o: Option<String>) -> Option<Seq<char>> {
    match o {
        Some(s) => Some(s@),
        None => None,
    }
}

/// `m` with each present override replacing its key's value.
pub open spec fn with_overrides(
    m: Map<Seq<char>, Seq<char>>,
    host: Option<Seq<char>>,
    port: Option<Seq<char>>,
    debug: Option<Seq<char>>,
) -> Map<Seq<char>, Seq<char>> {
    let m1 = match host {
        Some(h) => m.insert("host"@, h),
        None => m,
    };
    let m2 = match port {
        Some(p) => m1.insert("port"@, p),
        None => m1,
    };
    match debug {
        Some(d) => m2.insert("debug"@, d),
        None => m2,
    }
}

/// Applies the environment's overrides: each value that is present replaces
/// the key's.
pub fn apply_overrides(
    map: &mut StringMap<String>,
    host: Option<String>,
    port: Option<String>,
    debug: Option<String>,
)
    ensures
        string_values(final(map)@) == with_overrides(
            string_values(old(map)@),
            opt_view(host),
            opt_view(port),
            opt_view(debug),
        ),
{
    let ghost m0 = string_values(map@);
    if let Some(h) = host {
        let ghost hv = h@;
        map.insert(String::from_str("host"), h);
        assert(string_values(map@) =~= m0.insert("host"@, hv));
    }
    let ghost m1 = string_values(map@);
    if let Some(p) = port {
        let ghost pv = p@;
        map.insert(String::from_str("port"), p);
        assert(string_values(map@) =~= m1.insert("port"@, pv));
    }
    let ghost m2 = string_values(map@);
    if let Some(d) = debug {
        let ghost dv = d@;
        map.insert(String::from_str("debug"), d);
        assert(string_values(map@) =~= m2.insert("debug"@, dv));
    }
}

/// Settings from the text of a configuration file and the environment's
/// overrides.
pub fn config_from_text(
    contents: &str,
    host: Option<String>,
    port: Option<String>,
    debug: Option<String>,
) -> (r: Result<AppConfig, ConfigError>)
    ensures
        built_from(
            with_overrides(
                kv_map(crate::grep::lines_of(contents@)),
                opt_view(host),
                opt_view(port),
                opt_view(debug),
            ),
            r,
        ),
{
    let mut map = parse_kv(contents);
    apply_overrides(&mut map, host, port, debug);
    build_config(&map)
}

/// The process exit status for an error: 2 for bad settings, 1 for I/O.
pub fn exit_code_for_error(err: &ConfigError) -> (r: i32)
    ensures
        r == (if err is Io {
            1i32
        } else {
            2i32
        }),
{
    match err {
        ConfigError::MissingKey(_) => 2,
        ConfigError::InvalidPort(_) | ConfigError::InvalidBool(_) => 2,
        ConfigError::Io(_) => 1,
    }
}

} // verus!
