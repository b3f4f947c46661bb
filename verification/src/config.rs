//! The service's configuration, read from a TOML file.

use vstd::prelude::*;

verus! {

/// The file the configuration is read from.
pub const CONFIG_FILE_PATH: &'static str = "NEVER_COMMIT/tagaton.toml";

/// A TOML value as the parser reads it. A float keeps only its kind.
pub enum TomlValue {
    String(String),
    Integer(i64),
    Float,
    Boolean(bool),
    Datetime(String),
    Array(Vec<TomlValue>),
    Table(Vec<(String, TomlValue)>),
}

/// A TOML value with its strings as character sequences; a table lists
/// its entries in ascending key order.
pub enum TomlValueView {
    String(Seq<char>),
    Integer(i64),
    Float,
    Boolean(bool),
    Datetime(Seq<char>),
    Array(Seq<TomlValueView>),
    Table(Seq<(Seq<char>, TomlValueView)>),
}

/// The view of a value.
pub open spec fn toml_view(v: TomlValue) -> TomlValueView
    decreases v, 0int,
{
    match v {
        TomlValue::String(s) => TomlValueView::String(s@),
        TomlValue::Integer(i) => TomlValueView::Integer(i),
        TomlValue::Float => TomlValueView::Float,
        TomlValue::Boolean(b) => TomlValueView::Boolean(b),
        TomlValue::Datetime(d) => TomlValueView::Datetime(d@),
        TomlValue::Array(items) => TomlValueView::Array(toml_items_view(items@)),
        TomlValue::Table(entries) => TomlValueView::Table(toml_entries_view(entries@)),
    }
}

/// The views of an array's items.
pub open spec fn toml_items_view(s: Seq<TomlValue>) -> Seq<TomlValueView>
    decreases s, 1int,
{
    if s.len() == 0 {
        Seq::empty()
    } else {
        toml_items_view(s.drop_last()).push(toml_view(s.last()))
    }
}

/// The views of a table's entries.
pub open spec fn toml_entries_view(s: Seq<(String, TomlValue)>) -> Seq<(Seq<char>, TomlValueView)>
    decreases s, 1int,
{
    if s.len() == 0 {
        Seq::empty()
    } else {
        toml_entries_view(s.drop_last()).push((s.last().0@, toml_view(s.last().1)))
    }
}

} // verus!

verus! {

proof fn lemma_entries_view_index(s: Seq<(String, TomlValue)>, i: int)
    requires
        0 <= i < s.len(),
    ensures
        toml_entries_view(s).len() == s.len(),
        toml_entries_view(s)[i] == (s[i].0@, toml_view(s[i].1)),
    decreases s.len(),
{
    lemma_entries_view_len(s);
    if i < s.len() - 1 {
        lemma_entries_view_index(s.drop_last(), i);
    }
}

proof fn lemma_entries_view_len(s: Seq<(String, TomlValue)>)
    ensures
        toml_entries_view(s).len() == s.len(),
    decreases s.len(),
{
    if s.len() > 0 {
        lemma_entries_view_len(s.drop_last());
    }
}

/// The value of the first entry of a table with key `k`, if any (a parsed
/// table has each key once).
pub open spec fn table_lookup(entries: Seq<(Seq<char>, TomlValueView)>, k: Seq<char>) -> Option<
    TomlValueView,
>
    decreases entries.len(),
{
    if entries.len() == 0 {
        None
    } else {
        match table_lookup(entries.drop_last(), k) {
            Some(v) => Some(v),
            None => if entries.last().0 == k {
                Some(entries.last().1)
            } else {
                None
            },
        }
    }
}

proof fn lemma_lookup_prefix(s: Seq<(Seq<char>, TomlValueView)>, k: Seq<char>, m: int)
    requires
        0 <= m <= s.len(),
        table_lookup(s.take(m), k) is Some,
    ensures
        table_lookup(s, k) == table_lookup(s.take(m), k),
    decreases s.len(),
{
    if m < s.len() {
        assert(s.drop_last().take(m) =~= s.take(m));
        lemma_lookup_prefix(s.drop_last(), k, m);
    } else {
        assert(s.take(m) =~= s);
    }
}

/// The value stored under `key` in a table's entries.
fn table_get<'a>(entries: &'a Vec<(String, TomlValue)>, key: &str) -> (r: Option<&'a TomlValue>)
    ensures
        match r {
            Some(v) => table_lookup(toml_entries_view(entries@), key@) == Some(toml_view(*v)),
            None => table_lookup(toml_entries_view(entries@), key@) is None,
        },
{
    let ghost ev = toml_entries_view(entries@);
    proof {
        lemma_entries_view_len(entries@);
        assert(ev.take(0) =~= Seq::<(Seq<char>, TomlValueView)>::empty());
    }
    let n = entries.len();
    let mut i: usize = 0;
    while i < n
        invariant
            n == entries@.len(),
            ev == toml_entries_view(entries@),
            ev.len() == n,
            i <= n,
            table_lookup(ev.take(i as int), key@) is None,
        decreases n - i,
    {
        proof {
            lemma_entries_view_index(entries@, i as int);
            assert(ev.take(i + 1).drop_last() =~= ev.take(i as int));
        }
        if crate::text::str_eq(entries[i].0.as_str(), key) {
            proof {
                lemma_lookup_prefix(ev, key@, i + 1);
            }
            return Some(&entries[i].1);
        }
        i = i + 1;
    }
    proof {
        assert(ev.take(n as int) =~= ev);
    }
    None
}

#[verifier::external_type_specification]
#[verifier::external_body]
pub struct ExTomlValue(toml::Value);

/// The document that `toml::Parser::parse` reads from a text, as a table
/// value; `None` where the text is not valid TOML.
pub uninterp spec fn toml_parse(text: Seq<char>) -> Option<TomlValueView>;

/// Parses a TOML document with `toml::Parser::new(text).parse()`. Its
/// result is a function of the text alone and is named `toml_parse`; the
/// parser returns a table whenever it succeeds. What `toml_parse` gives on
/// a particular text is not stated.
#[verifier::external_body]
fn parse_toml(text: &str) -> (r: Option<TomlValue>)
    ensures
        match r {
            Some(v) => toml_parse(text@) == Some(toml_view(v)),
            None => toml_parse(text@) is None,
        },
        r matches Some(v) ==> v is Table,
{
    toml::Parser::new(text).parse().map(|t| from_toml(toml::Value::Table(t)))
}

/// Converts a parsed `toml::Value` variant by variant; a table's entries
/// come in the map's (ascending) key order.
#[verifier::external_body]
fn from_toml(v: toml::Value) -> TomlValue {
    match v {
        toml::Value::String(s) => TomlValue::String(s),
        toml::Value::Integer(i) => TomlValue::Integer(i),
        toml::Value::Float(_) => TomlValue::Float,
        toml::Value::Boolean(b) => TomlValue::Boolean(b),
        toml::Value::Datetime(d) => TomlValue::Datetime(d),
        toml::Value::Array(a) => TomlValue::Array(a.into_iter().map(from_toml).collect()),
        toml::Value::Table(t) => TomlValue::Table(t.into_iter().map(|(k, x)| (k, from_toml(x))).collect()),
    }
}

/// Why a configuration cannot be read.
#[derive(Clone, Copy, Debug, PartialEq, Eq, Structural)]
pub enum ConfigError {
    /// The text is not valid TOML.
    Unparsable,
    /// The document is not a table.
    RootNotTable,
    /// There is no `paths` entry.
    MissingPaths,
    /// The `paths` entry is not a table.
    PathsNotTable,
    /// `paths` has no `sensitive_path_key` entry.
    MissingSensitivePathKey,
    /// `paths.sensitive_path_key` is not a string.
    SensitivePathKeyNotString,
}

/// The sensitive path key that a configuration document holds at
/// `paths.sensitive_path_key`, or the first thing wrong on the way there.
pub open spec fn config_from_toml(root: TomlValueView) -> Result<Seq<char>, ConfigError> {
    match root {
        TomlValueView::Table(root_entries) => match table_lookup(root_entries, "paths"@) {
            None => Err(ConfigError::MissingPaths),
            Some(TomlValueView::Table(path_entries)) => match table_lookup(
                path_entries,
                "sensitive_path_key"@,
            ) {
                None => Err(ConfigError::MissingSensitivePathKey),
                Some(TomlValueView::String(key)) => Ok(key),
                Some(_) => Err(ConfigError::SensitivePathKeyNotString),
            },
            Some(_) => Err(ConfigError::PathsNotTable),
        },
        _ => Err(ConfigError::RootNotTable),
    }
}

/// The sensitive path key that a configuration text yields, or why it
/// yields none.
pub open spec fn config_result(text: Seq<char>) -> Result<Seq<char>, ConfigError> {
    match toml_parse(text) {
        None => Err(ConfigError::Unparsable),
        Some(root) => config_from_toml(root),
    }
}

/// No key occurs twice among a table's entries (as in a parsed table).
pub open spec fn keys_distinct(entries: Seq<(Seq<char>, TomlValueView)>) -> bool {
    forall|i: int, j: int|
        0 <= i < entries.len() && 0 <= j < entries.len() && i != j ==> #[trigger] entries[i].0
            != #[trigger] entries[j].0
}

/// Every entry of `small` is also an entry of `big`.
pub open spec fn entries_within(
    small: Seq<(Seq<char>, TomlValueView)>,
    big: Seq<(Seq<char>, TomlValueView)>,
) -> bool {
    forall|i: int| 0 <= i < small.len() ==> big.contains(#[trigger] small[i])
}

proof fn lemma_lookup_is_entry(s: Seq<(Seq<char>, TomlValueView)>, k: Seq<char>)
    requires
        table_lookup(s, k) is Some,
    ensures
        s.contains((k, table_lookup(s, k)->Some_0)),
    decreases s.len(),
{
    let v = table_lookup(s, k)->Some_0;
    if table_lookup(s.drop_last(), k) is Some {
        lemma_lookup_is_entry(s.drop_last(), k);
        let i = choose|i: int| 0 <= i < s.drop_last().len() && s.drop_last()[i] == (k, v);
        assert(s[i] == (k, v));
    } else {
        assert(s[s.len() - 1] == (k, v));
    }
}

proof fn lemma_entry_is_lookup(s: Seq<(Seq<char>, TomlValueView)>, k: Seq<char>, v: TomlValueView)
    requires
        keys_distinct(s),
        s.contains((k, v)),
    ensures
        table_lookup(s, k) == Some(v),
    decreases s.len(),
{
    let i = choose|i: int| 0 <= i < s.len() && s[i] == (k, v);
    let t = s.drop_last();
    assert forall|a: int, b: int|
        0 <= a < t.len() && 0 <= b < t.len() && a != b implies #[trigger] t[a].0 != #[trigger] t[b].0 by {
        assert(t[a] == s[a] && t[b] == s[b]);
    }
    if i < s.len() - 1 {
        assert(t[i] == (k, v));
        lemma_entry_is_lookup(t, k, v);
    } else {
        if table_lookup(t, k) is Some {
            lemma_lookup_is_entry(t, k);
            let j = choose|j: int| 0 <= j < t.len() && t[j] == (k, table_lookup(t, k)->Some_0);
            assert(s[j].0 == s[i].0);
        }
    }
}

/// Entries added to a configuration document, at its top level or in its
/// `paths` table, leave the key it yields unchanged: a document whose
/// `paths` table holds every entry of another's (and each key once) yields
/// the same sensitive path key, whatever else either holds.
pub proof fn lemma_added_entries_keep_key(
    root1: Seq<(Seq<char>, TomlValueView)>,
    paths1: Seq<(Seq<char>, TomlValueView)>,
    root2: Seq<(Seq<char>, TomlValueView)>,
    paths2: Seq<(Seq<char>, TomlValueView)>,
)
    requires
        table_lookup(root1, "paths"@) == Some(TomlValueView::Table(paths1)),
        table_lookup(root2, "paths"@) == Some(TomlValueView::Table(paths2)),
        entries_within(paths1, paths2),
        keys_distinct(paths2),
        config_from_toml(TomlValueView::Table(root1)) is Ok,
    ensures
        config_from_toml(TomlValueView::Table(root2)) == config_from_toml(
            TomlValueView::Table(root1),
        ),
{
    let k = "sensitive_path_key"@;
    let v = table_lookup(paths1, k)->Some_0;
    lemma_lookup_is_entry(paths1, k);
    let i = choose|i: int| 0 <= i < paths1.len() && paths1[i] == (k, v);
    assert(paths2.contains(paths1[i]));
    lemma_entry_is_lookup(paths2, k, v);
}

/// The string a document holds at `paths.sensitive_path_key`, if it holds one.
pub open spec fn key_at_path(root: TomlValueView) -> Option<Seq<char>> {
    match root {
        TomlValueView::Table(e) => match table_lookup(e, "paths"@) {
            Some(TomlValueView::Table(p)) => match table_lookup(p, "sensitive_path_key"@) {
                Some(TomlValueView::String(s)) => Some(s),
                _ => None,
            },
            _ => None,
        },
        _ => None,
    }
}

/// A string at `paths.sensitive_path_key` is the key, unchanged; and the
/// configuration is read only where the document holds such a string.
pub proof fn lemma_string_key_is_the_key(root: TomlValueView)
    ensures
        key_at_path(root) matches Some(s) ==> config_from_toml(root) == Ok::<
            Seq<char>,
            ConfigError,
        >(s),
        config_from_toml(root) matches Ok(s) ==> key_at_path(root) == Some(s),
{
}

/// The service's settings.
pub struct Config {
    pub sensitive_path_key: String,
}

impl Config {
    /// The configuration held by a parsed document.
    pub fn from_toml(root: &TomlValue) -> (r: Result<Config, ConfigError>)
        ensures
            match r {
                Ok(c) => config_from_toml(toml_view(*root)) == Ok::<Seq<char>, ConfigError>(
                    c.sensitive_path_key@,
                ),
                Err(e) => config_from_toml(toml_view(*root)) == Err::<Seq<char>, ConfigError>(e),
            },
            key_at_path(toml_view(*root)) matches Some(k) ==> r matches Ok(c)
                && c.sensitive_path_key@ == k,
    {
        proof {
            lemma_string_key_is_the_key(toml_view(*root));
        }
        let root_entries = match root {
            TomlValue::Table(entries) => entries,
            _ => {
                return Err(ConfigError::RootNotTable);
            },
        };
        let paths = match table_get(root_entries, "paths") {
            Some(v) => v,
            None => {
                return Err(ConfigError::MissingPaths);
            },
        };
        let path_entries = match paths {
            TomlValue::Table(entries) => entries,
            _ => {
                return Err(ConfigError::PathsNotTable);
            },
        };
        let key = match table_get(path_entries, "sensitive_path_key") {
            Some(v) => v,
            None => {
                return Err(ConfigError::MissingSensitivePathKey);
            },
        };
        match key {
            TomlValue::String(s) => Ok(Config { sensitive_path_key: s.clone() }),
            _ => Err(ConfigError::SensitivePathKeyNotString),
        }
    }

    /// The configuration written in `toml_text`, which must hold a string
    /// at `paths.sensitive_path_key`.
    pub fn new(toml_text: &str) -> (c: Config)
        requires
            config_result(toml_text@) is Ok,
        ensures
            config_result(toml_text@) == Ok::<Seq<char>, ConfigError>(c.sensitive_path_key@),
            key_at_path(toml_parse(toml_text@)->Some_0) == Some(c.sensitive_path_key@),
    {
        proof {
            lemma_string_key_is_the_key(toml_parse(toml_text@)->Some_0);
        }
        match parse_toml(toml_text) {
            Some(root) => match Config::from_toml(&root) {
                Ok(c) => c,
                Err(_) => {
                    proof {
                        assert(false);
                    }
                    Config { sensitive_path_key: String::new() }
                },
            },
            None => {
                proof {
                    assert(false);
                }
                Config { sensitive_path_key: String::new() }
            },
        }
    }

    /// The configuration written in `toml_text`, or why there is none.
    pub fn try_new(toml_text: &str) -> (r: Result<Config, ConfigError>)
        ensures
            match r {
                Ok(c) => config_result(toml_text@) == Ok::<Seq<char>, ConfigError>(
                    c.sensitive_path_key@,
                ),
                Err(e) => config_result(toml_text@) == Err::<Seq<char>, ConfigError>(e),
            },
            toml_parse(toml_text@) is Some && key_at_path(toml_parse(toml_text@)->Some_0) is Some
                ==> r is Ok && r->Ok_0.sensitive_path_key@ == key_at_path(
                toml_parse(toml_text@)->Some_0,
            )->Some_0,
    {
        proof {
            if toml_parse(toml_text@) is Some {
                lemma_string_key_is_the_key(toml_parse(toml_text@)->Some_0);
            }
        }
        let root = match parse_toml(toml_text) {
            Some(root) => root,
            None => {
                return Err(ConfigError::Unparsable);
            },
        };
        match Config::from_toml(&root) {
            Ok(_) => Ok(Config::new(toml_text)),
            Err(e) => Err(e),
        }
    }
}

} // verus!
