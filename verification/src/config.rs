use vstd::prelude::*;

use crate::strings::{push_char, str_eq};

verus! {

/// A parsed configuration file (`ini::Ini`).
#[verifier::external_type_specification]
#[verifier::external_body]
pub struct ExIni(ini::Ini);

/// The key-value pairs of one section of a configuration file (`ini::Properties`).
#[verifier::external_type_specification]
#[verifier::external_body]
pub struct ExProperties(ini::Properties);

/// The named sections of a configuration: for each section name, the first
/// value of each of its keys.
pub uninterp spec fn ini_sections(config: ini::Ini) -> Map<Seq<char>, Map<Seq<char>, Seq<char>>>;

/// The first value of each key of a section.
pub uninterp spec fn properties_entries(properties: ini::Properties) -> Map<Seq<char>, Seq<char>>;

/// The section named `name`, with `ini::Ini::section`.
///
/// Trusted: the section exists exactly when the configuration has a section
/// of that name, and its entries are those of that section.
#[verifier::external_body]
fn ini_section<'a>(config: &'a ini::Ini, name: &str) -> (r: Option<&'a ini::Properties>)
    ensures
        r is Some <==> ini_sections(*config).contains_key(name@),
        r matches Some(p) ==> properties_entries(*p) == ini_sections(*config)[name@],
{
    config.section(Some(name))
}

/// The first value of `key` in a section, with `ini::Properties::get`.
///
/// Trusted: the value exists exactly when the section has the key, and it is
/// the key's first value.
#[verifier::external_body]
fn properties_get(properties: &ini::Properties, key: &str) -> (r: Option<String>)
    ensures
        r is Some <==> properties_entries(*properties).contains_key(key@),
        r matches Some(v) ==> v@ == properties_entries(*properties)[key@],
{
    properties.get(key).map(|v| v.to_string())
}

/// The value of `key` in section `section` of a configuration.
pub open spec fn config_value(config: ini::Ini, section: Seq<char>, key: Seq<char>) -> Option<Seq<char>> {
    if ini_sections(config).contains_key(section) && ini_sections(config)[section].contains_key(key) {
        Some(ini_sections(config)[section][key])
    } else {
        None
    }
}

/// The value of a key of a section of the configuration, if present.
pub fn retrieve_config_value(config: &ini::Ini, section: &str, key: &str) -> (r: Option<String>)
    ensures
        match r {
            Some(v) => config_value(*config, section@, key@) == Some(v@),
            None => config_value(*config, section@, key@) is None,
        },
{
    let properties = ini_section(config, section)?;
    properties_get(properties, key)
}

/// The view of an optional string.
pub open spec fn opt_view(o: Option<String>) -> Option<Seq<char>> {
    match o {
        Some(s) => Some(s@),
        None => None,
    }
}

/// `first`, or else `second`.
pub open spec fn or_else(first: Option<Seq<char>>, second: Option<Seq<char>>) -> Option<Seq<char>> {
    match first {
        Some(v) => Some(v),
        None => second,
    }
}

/// A configured value: from the configuration file when it has one, else
/// from the environment variable.
pub open spec fn configured_value(config: Option<ini::Ini>, section: Seq<char>, key: Seq<char>, env: Option<Seq<char>>) -> Option<Seq<char>> {
    match config {
        Some(c) => or_else(config_value(c, section, key), env),
        None => env,
    }
}

/// The value of a key from the configuration, or else from the environment.
fn retrieve_configured_value(config: Option<&ini::Ini>, section: &str, key: &str, env_value: Option<String>) -> (r: Option<String>)
    ensures
        opt_view(r) == configured_value(
            match config { Some(c) => Some(*c), None => None },
            section@,
            key@,
            opt_view(env_value),
        ),
{
    match config {
        Some(config) => match retrieve_config_value(config, section, key) {
            Some(v) => Some(v),
            None => env_value,
        },
        None => env_value,
    }
}

/// The project folder: `path` of section `core` of the configuration, or
/// else the value of the environment variable.
pub fn retrieve_folder_path(config: Option<&ini::Ini>, env_path: Option<String>) -> (r: Option<String>)
    ensures
        opt_view(r) == configured_value(
            match config { Some(c) => Some(*c), None => None },
            "core"@,
            "path"@,
            opt_view(env_path),
        ),
{
    retrieve_configured_value(config, "core", "path", env_path)
}

} // verus!

verus! {

/// The database connection settings of the configuration.
pub struct DbConfig {
    pub address: Option<String>,
    pub url: Option<String>,
    pub username: Option<String>,
    pub password: Option<String>,
    pub ns: Option<String>,
    pub db: Option<String>,
}

/// The values of the environment variables that can hold connection settings.
pub struct DbEnvironment {
    pub address: Option<String>,
    pub username: Option<String>,
    pub password: Option<String>,
    pub ns: Option<String>,
    pub db: Option<String>,
}

/// The database settings: each from section `db` of the configuration, or
/// else from its environment variable; `url` only from the configuration.
pub fn retrieve_db_config(config: Option<&ini::Ini>, env: DbEnvironment) -> (r: DbConfig)
    ensures
        ({
            let c = match config { Some(c) => Some(*c), None => None };
            &&& opt_view(r.address) == configured_value(c, "db"@, "address"@, opt_view(env.address))
            &&& opt_view(r.url) == configured_value(c, "db"@, "url"@, None)
            &&& opt_view(r.username) == configured_value(c, "db"@, "username"@, opt_view(env.username))
            &&& opt_view(r.password) == configured_value(c, "db"@, "password"@, opt_view(env.password))
            &&& opt_view(r.ns) == configured_value(c, "db"@, "ns"@, opt_view(env.ns))
            &&& opt_view(r.db) == configured_value(c, "db"@, "db"@, opt_view(env.db))
        }),
{
    let DbEnvironment { address, username, password, ns, db } = env;
    DbConfig {
        address: retrieve_configured_value(config, "db", "address", address),
        url: retrieve_configured_value(config, "db", "url", None),
        username: retrieve_configured_value(config, "db", "username", username),
        password: retrieve_configured_value(config, "db", "password", password),
        ns: retrieve_configured_value(config, "db", "ns", ns),
        db: retrieve_configured_value(config, "db", "db", db),
    }
}

/// The kind of table that new schema files define.
#[derive(PartialEq, Eq, Structural, Clone, Copy, Debug)]
pub enum TableSchemaDesign {
    Schemafull,
    Schemaless,
}

/// What `str::to_lowercase` gives for `s`.
pub uninterp spec fn lowercased(s: Seq<char>) -> Seq<char>;

/// The lowercase form of `s`, with `str::to_lowercase`.
///
/// Trusted: the result is the named lowercase form of `s`.
#[verifier::external_body]
pub(crate) fn to_lowercase(s: &str) -> (r: String)
    ensures
        r@ == lowercased(s@),
{
    s.to_lowercase()
}

/// The table design that a setting names: `full` or `less`, in any case.
pub open spec fn spec_table_schema_design(s: Seq<char>) -> Option<TableSchemaDesign> {
    if lowercased(s) == "full"@ {
        Some(TableSchemaDesign::Schemafull)
    } else if lowercased(s) == "less"@ {
        Some(TableSchemaDesign::Schemaless)
    } else {
        None
    }
}

/// Reads a table design setting: `full` or `less`, in any case.
pub fn parse_table_schema_design(schema_str: String) -> (r: Option<TableSchemaDesign>)
    ensures
        r == spec_table_schema_design(schema_str@),
{
    let lower = to_lowercase(schema_str.as_str());
    if str_eq(lower.as_str(), "full") {
        Some(TableSchemaDesign::Schemafull)
    } else if str_eq(lower.as_str(), "less") {
        Some(TableSchemaDesign::Schemaless)
    } else {
        None
    }
}

/// The table design: `schema` of section `core` of the configuration, or
/// else the environment variable, read by `parse_table_schema_design`.
pub fn retrieve_table_schema_design(config: Option<&ini::Ini>, env_schema: Option<String>) -> (r: Option<TableSchemaDesign>)
    ensures
        r == match configured_value(
            match config { Some(c) => Some(*c), None => None },
            "core"@,
            "schema"@,
            opt_view(env_schema),
        ) {
            Some(s) => spec_table_schema_design(s),
            None => None,
        },
{
    match retrieve_configured_value(config, "core", "schema", env_schema) {
        Some(schema_str) => parse_table_schema_design(schema_str),
        None => None,
    }
}

} // verus!

verus! {

/// Position of the first occurrence of `c` in `s`, if any.
pub open spec fn first_index_of(s: Seq<char>, c: char) -> Option<int>
    decreases s.len(),
{
    if s.len() == 0 {
        None
    } else if s[0] == c {
        Some(0)
    } else {
        match first_index_of(s.drop_first(), c) {
            Some(i) => Some(i + 1),
            None => None,
        }
    }
}

proof fn lemma_first_index_of(s: Seq<char>, c: char)
    ensures
        first_index_of(s, c) matches Some(i) ==> 0 <= i < s.len() && s[i] == c && (forall|k: int| 0 <= k < i ==> s[k] != c),
        first_index_of(s, c) is None ==> forall|k: int| 0 <= k < s.len() ==> s[k] != c,
    decreases s.len(),
{
    if s.len() > 0 && s[0] != c {
        lemma_first_index_of(s.drop_first(), c);
        assert forall|k: int| 1 <= k < s.len() implies s[k] == s.drop_first()[k - 1] by {}
    }
}

/// The pieces of `s` between occurrences of `sep` (as `str::split(sep)`).
pub open spec fn split_on(s: Seq<char>, sep: char) -> Seq<Seq<char>>
    decreases s.len(),
{
    match first_index_of(s, sep) {
        Some(i) => {
            if 0 <= i < s.len() {
                seq![s.subrange(0, i)] + split_on(s.subrange(i + 1, s.len() as int), sep)
            } else {
                seq![s]
            }
        },
        None => seq![s],
    }
}

/// The pieces of `s` between commas (as `str::split(',')`).
pub open spec fn split_on_comma(s: Seq<char>) -> Seq<Seq<char>> {
    split_on(s, ',')
}

/// The pieces of a text between occurrences of `sep`.
pub fn split_text(str: &str, sep: char) -> (tags: Vec<String>)
    ensures
        crate::statements::views(tags@) == split_on(str@, sep),
{
    let v = crate::strings::chars_of(str);
    let n = v.len();
    let mut done: Vec<String> = Vec::new();
    let mut cur = String::new();
    let mut i: usize = 0;
    assert(v@.subrange(0, n as int) =~= v@);
    assert(cur@ + v@.subrange(0, n as int) =~= v@);
    while i < n
        invariant
            v@ == str@,
            n == v.len(),
            i <= n,
            forall|k: int| 0 <= k < cur@.len() ==> cur@[k] != sep,
            split_on(str@, sep) == crate::statements::views(done@) + split_on(cur@ + v@.subrange(i as int, n as int), sep),
        decreases n - i,
    {
        let c = v[i];
        let ghost t = cur@ + v@.subrange(i as int, n as int);
        if c == sep {
            proof {
                lemma_first_index_of(t, sep);
                assert(t[cur@.len() as int] == sep);
                assert forall|k: int| 0 <= k < cur@.len() implies t[k] != sep by {
                    assert(t[k] == cur@[k]);
                }
                assert(first_index_of(t, sep) == Some(cur@.len() as int));
                assert(t.subrange(0, cur@.len() as int) =~= cur@);
                assert(t.subrange((cur@.len() + 1) as int, t.len() as int) =~= Seq::<char>::empty() + v@.subrange((i + 1) as int, n as int));
            }
            let ghost before = done@;
            done.push(cur);
            proof {
                assert(crate::statements::views(done@) =~= crate::statements::views(before).push(t.subrange(0, cur@.len() as int)));
            }
            cur = String::new();
        } else {
            let ghost old_cur = cur@;
            push_char(&mut cur, c);
            proof {
                assert(cur@ + v@.subrange((i + 1) as int, n as int) =~= t);
            }
        }
        i = i + 1;
    }
    proof {
        let t = cur@ + v@.subrange(n as int, n as int);
        assert(t =~= cur@);
        lemma_first_index_of(cur@, sep);
        if first_index_of(cur@, sep) is Some {
            let j = first_index_of(cur@, sep)->0;
            assert(cur@[j] == sep);
        }
    }
    let ghost before = done@;
    done.push(cur);
    assert(crate::statements::views(done@) =~= crate::statements::views(before).push(cur@));
    done
}

/// The tags of a comma-separated list.
pub fn parse_tags(str: &str) -> (tags: Vec<String>)
    ensures
        crate::statements::views(tags@) == split_on_comma(str@),
{
    split_text(str, ',')
}

/// Optional tags read from a configured comma-separated list.
pub open spec fn tags_view(o: Option<Vec<String>>) -> Option<Seq<Seq<char>>> {
    match o {
        Some(v) => Some(crate::statements::views(v@)),
        None => None,
    }
}

/// The tags to keep: `tags` of section `filters` of the configuration, or
/// else the environment variable, as a comma-separated list.
pub fn retrieve_tags(config: Option<&ini::Ini>, env_tags: Option<String>) -> (r: Option<Vec<String>>)
    ensures
        tags_view(r) == match configured_value(
            match config { Some(c) => Some(*c), None => None },
            "filters"@,
            "tags"@,
            opt_view(env_tags),
        ) {
            Some(s) => Some(split_on_comma(s)),
            None => None,
        },
{
    match retrieve_configured_value(config, "filters", "tags", env_tags) {
        Some(s) => Some(parse_tags(s.as_str())),
        None => None,
    }
}

/// The tags to exclude: `exclude_tags` of section `filters` of the
/// configuration, or else the environment variable, as a comma-separated list.
pub fn retrieve_exclude_tags(config: Option<&ini::Ini>, env_exclude_tags: Option<String>) -> (r: Option<Vec<String>>)
    ensures
        tags_view(r) == match configured_value(
            match config { Some(c) => Some(*c), None => None },
            "filters"@,
            "exclude_tags"@,
            opt_view(env_exclude_tags),
        ) {
            Some(s) => Some(split_on_comma(s)),
            None => None,
        },
{
    match retrieve_configured_value(config, "filters", "exclude_tags", env_exclude_tags) {
        Some(s) => Some(parse_tags(s.as_str())),
        None => None,
    }
}

} // verus!
