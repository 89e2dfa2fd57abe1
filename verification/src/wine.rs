//! Running games under Wine/Proton: the launcher's directories, the Proton verb, the
//! registry file it imports into a prefix and the registry it reads back.

use crate::hardware::{strip_all_prefix, trim_char};
use crate::pattern::{capture_group, regex_capture};
use crate::text::{
    char_index, concat, find_char, lines, lines_spec, lowercase, path_join, path_join_exec,
    push_str, replace_all, replace_spec, starts_with, starts_with_spec, str_eq, str_to_lowercase,
    trim, trim_spec, views,
};
use vstd::prelude::*;
use vstd::string::StrSliceExecFns;

verus! {

/// A Proton verb to use.
#[derive(Debug, Clone, Copy, PartialEq, Eq, Structural)]
pub enum CommandType {
    /// Set the prefix up and runs the command
    Run,
    /// Waits for any hanging wineserver instances and runs the command
    WaitForExitAndRun,
    /// Directly calls the command, doesn't setup the prefix (use with caution)
    RunInPrefix,
}

impl CommandType {
    pub open spec fn verb(self) -> Seq<char> {
        match self {
            CommandType::RunInPrefix => "runinprefix"@,
            CommandType::Run => "run"@,
            CommandType::WaitForExitAndRun => "waitforexitandrun"@,
        }
    }

    /// The verb as Proton expects it.
    pub fn to_string(&self) -> (r: String)
        ensures
            r@ == self.verb(),
    {
        match self {
            CommandType::RunInPrefix => "runinprefix".to_string(),
            CommandType::Run => "run".to_string(),
            CommandType::WaitForExitAndRun => "waitforexitandrun".to_string(),
        }
    }
}

/// Where the launcher keeps its Wine runtimes, under its data directory.
pub fn wine_dir(maxima_dir: &str) -> (r: String)
    ensures
        r@ == path_join(maxima_dir@, "wine"@),
{
    path_join_exec(maxima_dir, "wine")
}

/// Where the Easy Anti-Cheat runtime lives, under the launcher's data directory.
pub fn eac_dir(maxima_dir: &str) -> (r: String)
    ensures
        r@ == path_join(maxima_dir@, "wine/eac_runtime"@),
{
    path_join_exec(maxima_dir, "wine/eac_runtime")
}

/// The Proton to use: `MAXIMA_PROTON_PATH` when it is set and exists, `GE-Proton`
/// otherwise.
pub fn proton_dir(env_path: Option<&str>, env_path_exists: bool) -> (r: String)
    ensures
        match env_path {
            Some(p) => r@ == (if env_path_exists {
                p@
            } else {
                "GE-Proton"@
            }),
            None => r@ == "GE-Proton"@,
        },
{
    match env_path {
        Some(p) => if env_path_exists {
            p.to_string()
        } else {
            "GE-Proton".to_string()
        },
        None => "GE-Proton".to_string(),
    }
}

/// The `umu-run` script: `MAXIMA_UMU_LOCATION` when set, else the one on the search path,
/// else the launcher's own copy.
pub fn umu_script_path(env_location: Option<&str>, on_path: Option<&str>, maxima_dir: &str) -> (r:
    String)
    ensures
        match env_location {
            Some(l) => r@ == l@,
            None => match on_path {
                Some(p) => r@ == p@,
                None => r@ == path_join(maxima_dir@, "wine/umu/umu-run"@),
            },
        },
{
    match env_location {
        Some(l) => l.to_string(),
        None => match on_path {
            Some(p) => p.to_string(),
            None => path_join_exec(maxima_dir, "wine/umu/umu-run"),
        },
    }
}

/// The environment of a Proton command, in order: the prefix, the game id, the verb, the
/// Proton path, the store, the anti-cheat runtime, the dialog tool, the debug channels and
/// an empty preload; with the DLL overrides that Northstar needs when it is asked for.
pub open spec fn wine_env_spec(prefix: Seq<char>, verb: CommandType, proton: Seq<char>, eac: Seq<char>, northstar: bool) -> Seq<(Seq<char>, Seq<char>)> {
    let base = seq![
        ("WINEPREFIX"@, prefix),
        ("GAMEID"@, "umu-0"@),
        ("PROTON_VERB"@, verb.verb()),
        ("PROTONPATH"@, proton),
        ("STORE"@, "ea"@),
        ("PROTON_EAC_RUNTIME"@, eac),
        ("UMU_ZENITY"@, "1"@),
        ("WINEDEBUG"@, "fixme-all"@),
        ("LD_PRELOAD"@, ""@),
    ];
    if northstar {
        base.push(("WINEDLLOVERRIDES"@, NORTHSTAR_OVERRIDES@))
    } else {
        base
    }
}

/// The DLL overrides Northstar (Titanfall 2) needs.
pub const NORTHSTAR_OVERRIDES: &'static str = "CryptBase,wsock32,bcrypt,dxgi,d3d11,d3d12,d3d12core=n,b;winemenubuilder.exe=d";

/// The views of name/value pairs.
pub open spec fn pair_views(v: Seq<(String, String)>) -> Seq<(Seq<char>, Seq<char>)> {
    v.map_values(|p: (String, String)| (p.0@, p.1@))
}

fn push_pair(v: &mut Vec<(String, String)>, k: &str, val: &str)
    ensures
        pair_views(final(v)@) == pair_views(old(v)@).push((k@, val@)),
{
    v.push((k.to_string(), val.to_string()));
    assert(pair_views(v@) =~= pair_views(old(v)@).push((k@, val@)));
}

pub fn wine_command_env(
    prefix: &str,
    verb: CommandType,
    proton: &str,
    eac: &str,
    northstar: bool,
) -> (r: Vec<(String, String)>)
    ensures
        pair_views(r@) == wine_env_spec(prefix@, verb, proton@, eac@, northstar),
{
    let mut v: Vec<(String, String)> = Vec::new();
    assert(pair_views(v@) =~= Seq::<(Seq<char>, Seq<char>)>::empty());
    push_pair(&mut v, "WINEPREFIX", prefix);
    push_pair(&mut v, "GAMEID", "umu-0");
    let verb_text = verb.to_string();
    push_pair(&mut v, "PROTON_VERB", verb_text.as_str());
    push_pair(&mut v, "PROTONPATH", proton);
    push_pair(&mut v, "STORE", "ea");
    push_pair(&mut v, "PROTON_EAC_RUNTIME", eac);
    push_pair(&mut v, "UMU_ZENITY", "1");
    push_pair(&mut v, "WINEDEBUG", "fixme-all");
    push_pair(&mut v, "LD_PRELOAD", "");
    if northstar {
        push_pair(&mut v, "WINEDLLOVERRIDES", NORTHSTAR_OVERRIDES);
    }
    v
}

/// A registry key with the text values set under it.
pub open spec fn reg_section(key: Seq<char>, values: Seq<(Seq<char>, Seq<char>)>) -> Seq<char>
    decreases values.len(),
{
    if values.len() == 0 {
        seq!['['] + key + seq![']', '\n']
    } else {
        reg_section(key, values.drop_last()) + seq!['"'] + values.last().0 + seq!['"', '=', '"']
            + replace_spec(values.last().1, seq!['\\'], seq!['\\', '\\']) + seq!['"', '\n', '\n']
    }
}

/// A registry file: its header, then each key with its values.
pub open spec fn reg_file(entries: Seq<(Seq<char>, Seq<(Seq<char>, Seq<char>)>)>) -> Seq<char>
    decreases entries.len(),
{
    if entries.len() == 0 {
        "Windows Registry Editor Version 5.00\n\n"@
    } else {
        reg_file(entries.drop_last()) + reg_section(entries.last().0, entries.last().1)
    }
}

/// The keys the launcher sets in a prefix so that games find an installed EA app.
pub open spec fn launcher_reg_entries() -> Seq<(Seq<char>, Seq<(Seq<char>, Seq<char>)>)> {
    seq![
        (
            "HKEY_LOCAL_MACHINE\\Software\\Electronic Arts\\EA Desktop"@,
            seq![("InstallSuccessful"@, "true"@)],
        ),
        (
            "HKEY_LOCAL_MACHINE\\Software\\Electronic Arts\\Origin"@,
            seq![
                ("InstallSuccessful"@, "true"@),
                ("ClientPath"@, "C:/Windows/System32/conhost.exe"@),
            ],
        ),
        (
            "HKEY_LOCAL_MACHINE\\Software\\Wow6432Node\\Electronic Arts\\EA Desktop"@,
            seq![("InstallSuccessful"@, "true"@)],
        ),
        (
            "HKEY_LOCAL_MACHINE\\Software\\Wow6432Node\\Electronic Arts\\Origin"@,
            seq![
                ("InstallSuccessful"@, "true"@),
                ("ClientPath"@, "C:/Windows/System32/conhost.exe"@),
            ],
        ),
    ]
}

/// A registry key and its values, as given to `registry_file`.
pub struct RegKey {
    pub key: String,
    pub values: Vec<(String, String)>,
}

/// The views of registry keys with their values.
pub open spec fn reg_views(v: Seq<RegKey>) -> Seq<(Seq<char>, Seq<(Seq<char>, Seq<char>)>)> {
    v.map_values(|k: RegKey| (k.key@, pair_views(k.values@)))
}

fn reg_section_exec(out: &mut String, key: &RegKey)
    ensures
        final(out)@ == old(out)@ + reg_section(key.key@, pair_views(key.values@)),
{
    let ghost start = out@;
    let ghost vs = pair_views(key.values@);
    let backslash = "\\";
    let doubled = "\\\\";
    proof {
        reveal_strlit("\\");
        reveal_strlit("\\\\");
        assert(backslash@ =~= seq!['\\']);
        assert(doubled@ =~= seq!['\\', '\\']);
    }
    push_str(out, "[");
    push_str(out, key.key.as_str());
    push_str(out, "]\n");
    proof {
        reveal_strlit("[");
        reveal_strlit("]\n");
        assert(vs.take(0) =~= Seq::<(Seq<char>, Seq<char>)>::empty());
        assert(out@ =~= start + reg_section(key.key@, vs.take(0)));
    }
    let mut i: usize = 0;
    while i < key.values.len()
        invariant
            i <= key.values.len(),
            vs == pair_views(key.values@),
            vs.len() == key.values.len(),
            backslash@ == seq!['\\'],
            doubled@ == seq!['\\', '\\'],
            out@ == start + reg_section(key.key@, vs.take(i as int)),
        decreases key.values.len() - i,
    {
        assert(vs.take(i + 1).drop_last() =~= vs.take(i as int));
        assert(vs.take(i + 1).last() == (key.values@[i as int].0@, key.values@[i as int].1@));
        let escaped = replace_all(key.values[i].1.as_str(), backslash, doubled);
        push_str(out, "\"");
        push_str(out, key.values[i].0.as_str());
        push_str(out, "\"=\"");
        push_str(out, escaped.as_str());
        push_str(out, "\"\n\n");
        proof {
            reveal_strlit("\"");
            reveal_strlit("\"=\"");
            reveal_strlit("\"\n\n");
        }
        i = i + 1;
        assert(out@ =~= start + reg_section(key.key@, vs.take(i as int)));
    }
    assert(vs.take(key.values.len() as int) =~= vs);
}

/// The text of a registry file that sets the given keys.
pub fn registry_file(keys: &Vec<RegKey>) -> (r: String)
    ensures
        r@ == reg_file(reg_views(keys@)),
{
    let ghost vs = reg_views(keys@);
    let mut out = "Windows Registry Editor Version 5.00\n\n".to_string();
    assert(vs.take(0) =~= Seq::<(Seq<char>, Seq<(Seq<char>, Seq<char>)>)>::empty());
    let mut i: usize = 0;
    while i < keys.len()
        invariant
            i <= keys.len(),
            vs == reg_views(keys@),
            vs.len() == keys.len(),
            out@ == reg_file(vs.take(i as int)),
        decreases keys.len() - i,
    {
        assert(vs.take(i + 1).drop_last() =~= vs.take(i as int));
        assert(vs.take(i + 1).last() == (keys@[i as int].key@, pair_views(keys@[i as int].values@)));
        reg_section_exec(&mut out, &keys[i]);
        i = i + 1;
    }
    assert(vs.take(keys.len() as int) =~= vs);
    out
}

fn owned_pairs(pairs: &[(&str, &str)]) -> (r: Vec<(String, String)>)
    ensures
        r.len() == pairs.len(),
        forall|i: int|
            0 <= i < r.len() ==> (#[trigger] r@[i]).0@ == pairs@[i].0@ && r@[i].1@ == pairs@[i].1@,
{
    let mut v: Vec<(String, String)> = Vec::new();
    let mut i: usize = 0;
    while i < pairs.len()
        invariant
            i <= pairs.len(),
            v.len() == i,
            forall|j: int|
                0 <= j < i ==> (#[trigger] v@[j]).0@ == pairs@[j].0@ && v@[j].1@ == pairs@[j].1@,
        decreases pairs.len() - i,
    {
        v.push((pairs[i].0.to_string(), pairs[i].1.to_string()));
        i = i + 1;
    }
    v
}

/// The registry file the launcher imports into a game's prefix.
pub fn launcher_registry_file() -> (r: String)
    ensures
        r@ == reg_file(launcher_reg_entries()),
{
    let mut keys: Vec<RegKey> = Vec::new();
    keys.push(
        RegKey {
            key: "HKEY_LOCAL_MACHINE\\Software\\Electronic Arts\\EA Desktop".to_string(),
            values: owned_pairs(&[("InstallSuccessful", "true")]),
        },
    );
    keys.push(
        RegKey {
            key: "HKEY_LOCAL_MACHINE\\Software\\Electronic Arts\\Origin".to_string(),
            values: owned_pairs(
                &[("InstallSuccessful", "true"), ("ClientPath", "C:/Windows/System32/conhost.exe")],
            ),
        },
    );
    keys.push(
        RegKey {
            key: "HKEY_LOCAL_MACHINE\\Software\\Wow6432Node\\Electronic Arts\\EA Desktop".to_string(),
            values: owned_pairs(&[("InstallSuccessful", "true")]),
        },
    );
    keys.push(
        RegKey {
            key: "HKEY_LOCAL_MACHINE\\Software\\Wow6432Node\\Electronic Arts\\Origin".to_string(),
            values: owned_pairs(
                &[("InstallSuccessful", "true"), ("ClientPath", "C:/Windows/System32/conhost.exe")],
            ),
        },
    );
    let r = registry_file(&keys);
    assert(reg_views(keys@) =~= launcher_reg_entries()) by {
        assert(pair_views(keys@[0].values@) =~= seq![("InstallSuccessful"@, "true"@)]);
        assert(pair_views(keys@[1].values@) =~= seq![
            ("InstallSuccessful"@, "true"@),
            ("ClientPath"@, "C:/Windows/System32/conhost.exe"@),
        ]);
        assert(pair_views(keys@[2].values@) =~= seq![("InstallSuccessful"@, "true"@)]);
        assert(pair_views(keys@[3].values@) =~= seq![
            ("InstallSuccessful"@, "true"@),
            ("ClientPath"@, "C:/Windows/System32/conhost.exe"@),
        ]);
    }
    r
}


/// A section header line (`[key]`, trimmed) names a key.
pub open spec fn is_section_line(t: Seq<char>) -> bool {
    t.len() > 0 && t[0] == '[' && char_index(t, ']') is Some
}

/// The key a section header names: what lies between `[` and the first `]`.
pub open spec fn section_name(t: Seq<char>) -> Seq<char> {
    t.subrange(1, char_index(t, ']')->0)
}

/// A value line (trimmed) starts with a quote and holds an `=`.
pub open spec fn is_value_line(t: Seq<char>) -> bool {
    char_index(t, '=') is Some && t.len() > 0 && t[0] == '"'
}

/// The entry of a value line under a section: the section and the value's name joined by
/// a backslash, doubled backslashes made single, lower-cased; and the value, both without
/// their quotes.
pub open spec fn value_entry(section: Seq<char>, t: Seq<char>) -> (Seq<char>, Seq<char>) {
    let eq = char_index(t, '=')->0;
    let key = trim_char(t.take(eq), '"');
    let value = trim_char(t.skip(eq + 1), '"');
    (lowercase(replace_spec(section + seq!['\\'] + key, seq!['\\', '\\'], seq!['\\'])), value)
}

/// The entries of the rest of a registry file, read under the current section.
pub open spec fn registry_from(ls: Seq<Seq<char>>, section: Seq<char>) -> Seq<(Seq<char>, Seq<char>)>
    decreases ls.len(),
{
    if ls.len() == 0 {
        Seq::empty()
    } else {
        let t = trim_spec(ls[0]);
        if is_section_line(t) {
            registry_from(ls.drop_first(), section_name(t))
        } else if is_value_line(t) {
            seq![value_entry(section, t)] + registry_from(ls.drop_first(), section)
        } else {
            registry_from(ls.drop_first(), section)
        }
    }
}

/// The entries of a Wine registry file (such as `system.reg`), in file order; a later
/// entry of the same name replaces an earlier one.
pub open spec fn registry_entries_spec(text: Seq<char>) -> Seq<(Seq<char>, Seq<char>)> {
    registry_from(lines_spec(text), Seq::empty())
}

fn trim_quotes(s: &str) -> (r: &str)
    ensures
        r@ == trim_char(s@, '"'),
{
    crate::hardware::trim_char_pub(s, '"')
}

pub fn parse_wine_registry(text: &str) -> (r: Vec<(String, String)>)
    ensures
        pair_views(r@) == registry_entries_spec(text@),
{
    let ls = lines(text);
    let ghost vs = views(ls@);
    let mut section = String::new();
    let mut out: Vec<(String, String)> = Vec::new();
    let mut i: usize = 0;
    let single = "\\";
    let doubled = "\\\\";
    proof {
        reveal_strlit("\\");
        reveal_strlit("\\\\");
        assert(single@ =~= seq!['\\']);
        assert(doubled@ =~= seq!['\\', '\\']);
        assert(vs.skip(0) =~= vs);
        assert(pair_views(out@) =~= Seq::<(Seq<char>, Seq<char>)>::empty());
        assert(section@ =~= Seq::<char>::empty());
    }
    while i < ls.len()
        invariant
            i <= ls.len(),
            vs == views(ls@),
            vs.len() == ls.len(),
            vs == lines_spec(text@),
            single@ == seq!['\\'],
            doubled@ == seq!['\\', '\\'],
            pair_views(out@) + registry_from(vs.skip(i as int), section@) == registry_entries_spec(
                text@,
            ),
        decreases ls.len() - i,
    {
        assert(vs.skip(i as int)[0] == ls@[i as int]@);
        assert(vs.skip(i as int).drop_first() =~= vs.skip(i + 1));
        let t = trim(ls[i].as_str());
        let n = t.unicode_len();
        let close = find_char(t, ']');
        let eq = find_char(t, '=');
        if n > 0 && t.get_char(0) == '[' && close.is_some() {
            let end = close.unwrap();
            section = t.substring_char(1, end).to_string();
        } else if eq.is_some() && n > 0 && t.get_char(0) == '"' {
            let e = eq.unwrap();
            let key = trim_quotes(t.substring_char(0, e));
            let value = trim_quotes(t.substring_char(e + 1, n));
            let mut full = section.clone();
            push_str(&mut full, single);
            push_str(&mut full, key);
            let collapsed = replace_all(full.as_str(), doubled, single);
            let lowered = str_to_lowercase(collapsed.as_str());
            let ghost old_out = pair_views(out@);
            let ghost entry = (lowered@, value@);
            proof {
                assert(t@.take(e as int) =~= t@.subrange(0, e as int));
                assert(t@.skip(e + 1) =~= t@.subrange(e + 1, n as int));
                assert(full@ =~= section@ + seq!['\\'] + key@);
                assert(entry == value_entry(section@, t@));
            }
            out.push((lowered, value.to_string()));
            assert(pair_views(out@) =~= old_out.push(entry));
            assert(pair_views(out@) + registry_from(vs.skip(i + 1), section@) =~= old_out + (seq![
                entry,
            ] + registry_from(vs.skip(i + 1), section@)));
        }
        i = i + 1;
    }
    assert(vs.skip(ls.len() as int) =~= Seq::<Seq<char>>::empty());
    assert(pair_views(out@) + Seq::<(Seq<char>, Seq<char>)>::empty() =~= pair_views(out@));
    out
}

/// A registry key as looked up: lower-cased, without a leading `hkey_local_machine\`.
pub open spec fn normalize_key_spec(key: Seq<char>) -> Seq<char> {
    let lower = lowercase(key);
    if starts_with_spec(lower, "hkey_local_machine\\"@) {
        strip_all_prefix(lower, "hkey_local_machine\\"@)
    } else {
        lower
    }
}

pub fn normalize_key(key: &str) -> (r: String)
    ensures
        r@ == normalize_key_spec(key@),
{
    let lower = str_to_lowercase(key);
    if starts_with(lower.as_str(), "hkey_local_machine\\") {
        crate::hardware::strip_all_prefix_pub(lower.as_str(), "hkey_local_machine\\").to_string()
    } else {
        lower
    }
}

/// A runtime that Lutris publishes.
pub struct LutrisRuntime {
    pub name: String,
    pub created_at: String,
    pub url: String,
}

/// The installed versions of the runtimes the launcher manages.
pub struct Versions {
    pub eac_runtime: String,
    pub umu: String,
}

/// Why a runtime cannot be handled.
#[derive(Debug, Clone, PartialEq)]
pub enum RuntimeError {
    /// The launcher does not manage a runtime of this name.
    UnimplementedRuntime(String),
}

/// The version of a managed runtime, by its key.
pub open spec fn runtime_version(versions: Versions, key: Seq<char>) -> Option<Seq<char>> {
    if key == "umu"@ {
        Some(versions.umu@)
    } else if key == "eac_runtime"@ {
        Some(versions.eac_runtime@)
    } else {
        None
    }
}

/// Runtimes with the given name.
pub open spec fn named(key: Seq<char>) -> spec_fn(LutrisRuntime) -> bool {
    |r: LutrisRuntime| r.name@ == key
}

/// Whether an installed runtime is current: it is installed and the first published
/// runtime of its name was created when the installed one was. Unknown runtimes are an
/// error.
pub fn check_runtime_validity(
    key: &str,
    versions: &Versions,
    installed: bool,
    runtimes: &Vec<LutrisRuntime>,
) -> (r: Result<bool, RuntimeError>)
    ensures
        match runtime_version(*versions, key@) {
            None => r matches Err(RuntimeError::UnimplementedRuntime(k)) && k@ == key@,
            Some(v) => r matches Ok(b) && b == (installed && match crate::search::first_index(
                runtimes@,
                named(key@),
            ) {
                Some(i) => runtimes@[i].created_at@ == v,
                None => false,
            }),
        },
{
    proof {
        reveal_strlit("umu");
        reveal_strlit("eac_runtime");
    }
    let version = if str_eq(key, "umu") {
        &versions.umu
    } else if str_eq(key, "eac_runtime") {
        &versions.eac_runtime
    } else {
        return Err(RuntimeError::UnimplementedRuntime(key.to_string()));
    };
    if !installed {
        return Ok(false);
    }
    let ghost p = named(key@);
    let mut i: usize = 0;
    while i < runtimes.len()
        invariant
            i <= runtimes@.len(),
            p == named(key@),
            installed,
            runtime_version(*versions, key@) == Some(version@),
            forall|j: int| 0 <= j < i ==> !p(#[trigger] runtimes@[j]),
        decreases runtimes@.len() - i,
    {
        if str_eq(runtimes[i].name.as_str(), key) {
            proof {
                crate::search::lemma_first_index_found(runtimes@, p, i as int);
            }
            return Ok(str_eq(runtimes[i].created_at.as_str(), version.as_str()));
        }
        i = i + 1;
    }
    proof {
        crate::search::lemma_first_index_none(runtimes@, p);
    }
    Ok(false)
}

/// Records the creation date of a freshly installed runtime as its version.
pub fn record_runtime_version(versions: &mut Versions, key: &str, created_at: String) -> (r:
    Result<(), RuntimeError>)
    ensures
        match runtime_version(*old(versions), key@) {
            None => r matches Err(RuntimeError::UnimplementedRuntime(k)) && k@ == key@
                && final(versions).umu == old(versions).umu && final(versions).eac_runtime
                == old(versions).eac_runtime,
            Some(_) => r is Ok && runtime_version(*final(versions), key@) == Some(created_at@)
                && (key@ == "umu"@ ==> final(versions).eac_runtime == old(versions).eac_runtime)
                && (key@ == "eac_runtime"@ ==> final(versions).umu == old(versions).umu),
        },
{
    proof {
        reveal_strlit("umu");
        reveal_strlit("eac_runtime");
        assert("umu"@.len() != "eac_runtime"@.len());
    }
    if str_eq(key, "umu") {
        versions.umu = created_at;
        Ok(())
    } else if str_eq(key, "eac_runtime") {
        versions.eac_runtime = created_at;
        Ok(())
    } else {
        Err(RuntimeError::UnimplementedRuntime(key.to_string()))
    }
}


/// What the Wine helper is asked to find: the process of a launch by its executable name.
pub struct WineGetPidArgs {
    pub launch_id: String,
    pub name: String,
}

/// What the Wine helper is asked to inject into a process.
pub struct WineInjectArgs {
    pub pid: u32,
    pub path: String,
}

pub const PID_PATTERN: &'static str = "wine-helper: PID (.*)";

/// Why the Wine helper's answer gives no process id.
#[derive(Debug, Clone, Copy, PartialEq, Eq, Structural)]
pub enum PidError {
    /// The helper did not find the process.
    NotFound,
    /// The answer has no PID line (or the pattern does not compile).
    Pattern,
    /// The PID is not a number.
    Parse,
}

/// The process id in the Wine helper's output.
pub open spec fn pid_from_output(output: Seq<char>) -> Result<u32, PidError> {
    if crate::text::contains_spec(output, "Failed to find PID"@) {
        Err(PidError::NotFound)
    } else {
        match regex_capture(PID_PATTERN@, output, 1) {
            Some(Some(t)) => match crate::maxima::parse_u32_spec(t) {
                Some(p) => Ok(p),
                None => Err(PidError::Parse),
            },
            _ => Err(PidError::Pattern),
        }
    }
}

pub fn parse_pid_output(output: &str) -> (r: Result<u32, PidError>)
    ensures
        r == pid_from_output(output@),
{
    if crate::text::str_contains(output, "Failed to find PID") {
        return Err(PidError::NotFound);
    }
    match capture_group(PID_PATTERN, output, 1) {
        Some(Some(t)) => match crate::maxima::parse_u32(t.as_str()) {
            Some(p) => Ok(p),
            None => Err(PidError::Parse),
        },
        _ => Err(PidError::Pattern),
    }
}

} // verus!
