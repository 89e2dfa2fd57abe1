//! Where the launcher lives on the machine, and how it registers itself as the handler
//! of the `qrc` protocol.

use crate::text::{concat, find_char, lowercase, path_join, path_join_exec, str_eq, str_to_lowercase};
use vstd::prelude::*;
use vstd::string::StrSliceExecFns;

verus! {

/// Why the launcher's directory cannot be found.
#[derive(Debug, Clone, PartialEq)]
pub enum NativeError {
    MissingEnvironmentVariable(String),
}

/// The launcher's data directory on Unix: `maxima` under `XDG_DATA_HOME`, or under
/// `HOME/.local/share`; an error when neither is set.
pub fn maxima_dir(xdg_data_home: Option<&str>, home: Option<&str>) -> (r: Result<String, NativeError>)
    ensures
        match xdg_data_home {
            Some(x) => r matches Ok(p) && p@ == x@ + "/maxima"@,
            None => match home {
                Some(h) => r matches Ok(p) && p@ == h@ + "/.local/share"@ + "/maxima"@,
                None => r matches Err(NativeError::MissingEnvironmentVariable(v)) && v@ == "HOME"@,
            },
        },
{
    let base = match xdg_data_home {
        Some(x) => x.to_string(),
        None => match home {
            Some(h) => concat(h, "/.local/share"),
            None => return Err(NativeError::MissingEnvironmentVariable("HOME".to_string())),
        },
    };
    Ok(concat(base.as_str(), "/maxima"))
}

/// Bringing the launcher's window to the front needs nothing on Unix.
pub fn take_foreground_focus() -> (r: Result<(), NativeError>)
    ensures
        r is Ok,
{
    Ok(())
}

/// The platforms the launcher ships a bootstrap for.
#[derive(Debug, Clone, Copy, PartialEq, Eq, Structural)]
pub enum Platform {
    Windows,
    Linux,
    MacOs,
}

/// Where the bootstrap lies relative to the launcher's own directory.
pub open spec fn bootstrap_relative(platform: Platform) -> Seq<char> {
    match platform {
        Platform::Windows => "maxima-bootstrap.exe"@,
        Platform::Linux => "maxima-bootstrap"@,
        Platform::MacOs => "bundle/osx/MaximaBootstrap.app/Contents/MacOS/maxima-bootstrap"@,
    }
}

/// The bootstrap program next to the launcher's module directory.
pub fn bootstrap_path(module_dir: &str, platform: Platform) -> (r: String)
    ensures
        r@ == path_join(module_dir@, bootstrap_relative(platform)),
{
    match platform {
        Platform::Windows => path_join_exec(module_dir, "maxima-bootstrap.exe"),
        Platform::Linux => path_join_exec(module_dir, "maxima-bootstrap"),
        Platform::MacOs => path_join_exec(
            module_dir,
            "bundle/osx/MaximaBootstrap.app/Contents/MacOS/maxima-bootstrap",
        ),
    }
}

/// The desktop entry that makes the bootstrap handle a URL scheme.
pub open spec fn desktop_entry_spec(protocol: Seq<char>, name: Seq<char>, executable: Seq<char>) -> Seq<char> {
    "[Desktop Entry]\n"@ + "Type=Application\n"@ + "Name="@ + name + "\n"@ + "MimeType=x-scheme-handler/"@
        + protocol + "\n"@ + "Exec="@ + executable + " %u"@ + "\n"@ + "NoDisplay=true\n"@
        + "StartupNotify=true\n"@
}

pub fn desktop_entry(protocol: &str, name: &str, executable: &str) -> (r: String)
    ensures
        r@ == desktop_entry_spec(protocol@, name@, executable@),
{
    let mut s = "[Desktop Entry]\n".to_string();
    s = concat(s.as_str(), "Type=Application\n");
    s = concat(s.as_str(), "Name=");
    s = concat(s.as_str(), name);
    s = concat(s.as_str(), "\n");
    s = concat(s.as_str(), "MimeType=x-scheme-handler/");
    s = concat(s.as_str(), protocol);
    s = concat(s.as_str(), "\n");
    s = concat(s.as_str(), "Exec=");
    s = concat(s.as_str(), executable);
    s = concat(s.as_str(), " %u");
    s = concat(s.as_str(), "\n");
    s = concat(s.as_str(), "NoDisplay=true\n");
    s = concat(s.as_str(), "StartupNotify=true\n");
    s
}

/// The file name of the desktop entry for a scheme.
pub fn desktop_file_name(protocol: &str) -> (r: String)
    ensures
        r@ == "maxima-"@ + protocol@ + ".desktop"@,
{
    let a = concat("maxima-", protocol);
    concat(a.as_str(), ".desktop")
}

/// The MIME type of a URL scheme.
pub fn scheme_mime_type(protocol: &str) -> (r: String)
    ensures
        r@ == "x-scheme-handler/"@ + protocol@,
{
    concat("x-scheme-handler/", protocol)
}

/// Whether `xdg-mime query default` answered with the launcher's desktop entry: an empty
/// answer means no handler.
pub fn protocol_handler_registered(output: &str, protocol: &str) -> (r: bool)
    ensures
        r == (output@.len() > 0 && output@ == "maxima-"@ + protocol@ + ".desktop\n"@),
{
    if output.unicode_len() == 0 {
        return false;
    }
    let a = concat("maxima-", protocol);
    let expected = concat(a.as_str(), ".desktop\n");
    str_eq(output, expected.as_str())
}

/// The directory entry that stands for a path component on a case-sensitive file
/// system: the first entry whose lower-case form is that of the component.
pub fn case_insensitive_match(part: &str, entries: &Vec<String>) -> (r: Option<usize>)
    ensures
        match r {
            Some(i) => i < entries.len() && lowercase(entries@[i as int]@) == lowercase(part@)
                && forall|j: int| 0 <= j < i ==> lowercase((#[trigger] entries@[j])@) != lowercase(part@),
            None => forall|j: int| 0 <= j < entries.len() ==> lowercase((#[trigger] entries@[j])@) != lowercase(part@),
        },
{
    let wanted = str_to_lowercase(part);
    let mut i: usize = 0;
    while i < entries.len()
        invariant
            i <= entries.len(),
            wanted@ == lowercase(part@),
            forall|j: int| 0 <= j < i ==> lowercase((#[trigger] entries@[j])@) != lowercase(part@),
        decreases entries.len() - i,
    {
        let name = str_to_lowercase(entries[i].as_str());
        if str_eq(name.as_str(), wanted.as_str()) {
            return Some(i);
        }
        i = i + 1;
    }
    None
}

/// The part of an install-check key after its last `]`: the path below the install
/// directory. Nothing when the key has no `]`.
pub open spec fn after_last_bracket(key: Seq<char>) -> Option<Seq<char>>
    decreases key.len(),
{
    if key.len() == 0 {
        None
    } else if key.last() == ']' {
        Some(Seq::empty())
    } else {
        match after_last_bracket(key.drop_last()) {
            Some(rest) => Some(rest.push(key.last())),
            None => None,
        }
    }
}

/// A path in an install-check key (`[registry key]relative path`), made absolute under
/// the game's install directory. Nothing when the key has no `]`.
pub fn registry_path(key: &str, install_path: &str) -> (r: Option<String>)
    ensures
        match after_last_bracket(key@) {
            Some(rel) => r matches Some(p) && p@ == path_join(install_path@, rel),
            None => r is None,
        },
{
    let n = key.unicode_len();
    let mut i: usize = n;
    proof {
        assert(key@.take(n as int) =~= key@);
        assert(key@.skip(n as int) =~= Seq::<char>::empty());
        match after_last_bracket(key@) {
            Some(rest) => {
                assert(rest + key@.skip(n as int) =~= rest);
            },
            None => {},
        }
    }
    while i > 0
        invariant
            n == key@.len(),
            i <= n,
            forall|j: int| i <= j < n ==> key@[j] != ']',
            after_last_bracket(key@) == match after_last_bracket(key@.take(i as int)) {
                Some(rest) => Some(rest + key@.skip(i as int)),
                None => None,
            },
        decreases i,
    {
        if key.get_char(i - 1) == ']' {
            let rel = key.substring_char(i, n);
            proof {
                assert(key@.take(i as int).last() == ']');
                assert(after_last_bracket(key@.take(i as int)) == Some(Seq::<char>::empty()));
                assert(rel@ =~= Seq::<char>::empty() + key@.skip(i as int));
            }
            return Some(path_join_exec(install_path, rel));
        }
        proof {
            assert(key@.take(i as int).drop_last() =~= key@.take(i - 1));
            assert(key@.take(i as int).last() == key@[i - 1]);
            assert(key@.skip(i - 1) =~= seq![key@[i - 1]] + key@.skip(i as int));
            match after_last_bracket(key@.take(i - 1)) {
                Some(rest) => {
                    assert(rest.push(key@[i - 1]) + key@.skip(i as int) =~= rest + key@.skip(
                        i - 1,
                    ));
                },
                None => {},
            }
        }
        i = i - 1;
    }
    assert(key@.take(0) =~= Seq::<char>::empty());
    None
}

/// Why the protocol registration is not in order.
#[derive(Debug, Clone, Copy, PartialEq, Eq, Structural)]
pub enum RegistryError {
    /// `xdg-mime` could not be asked which handler is registered.
    XdgQueryFailed,
    /// The `qrc` protocol is not handled by the launcher.
    QrcUnregistered,
}

/// What registering the bootstrap as a URL scheme handler writes: the desktop entry, where
/// it goes, and the MIME type it is made the default for.
pub struct ProtocolRegistration {
    pub desktop_file_path: String,
    pub desktop_file: String,
    pub desktop_file_name: String,
    pub mime_type: String,
}

/// The registration of `executable` as the handler of `protocol`, with the desktop entry
/// in `applications` under the data home; none for a packaged install, whose package
/// registers itself.
pub fn register_custom_protocol(protocol: &str, name: &str, executable: &str, data_home: &str, packaged: bool) -> (r:
    Option<ProtocolRegistration>)
    ensures
        packaged ==> r is None,
        !packaged ==> (r matches Some(reg) && reg.desktop_file@ == desktop_entry_spec(
            protocol@,
            name@,
            executable@,
        ) && reg.desktop_file_name@ == "maxima-"@ + protocol@ + ".desktop"@
            && reg.desktop_file_path@ == data_home@ + "/applications/"@ + reg.desktop_file_name@
            && reg.mime_type@ == "x-scheme-handler/"@ + protocol@),
{
    if packaged {
        return None;
    }
    let desktop_file = desktop_entry(protocol, name, executable);
    let desktop_file_name = desktop_file_name(protocol);
    let dir = concat(data_home, "/applications/");
    let desktop_file_path = concat(dir.as_str(), desktop_file_name.as_str());
    let mime_type = scheme_mime_type(protocol);
    Some(ProtocolRegistration { desktop_file_path, desktop_file, desktop_file_name, mime_type })
}

/// The launcher's registration on Linux: the bootstrap next to the launcher's module
/// directory handles the `qrc` protocol, under the name `Maxima Launcher`.
pub fn set_up_registry(module_dir: &str, data_home: &str, packaged: bool) -> (r: Option<
    ProtocolRegistration,
>)
    ensures
        packaged ==> r is None,
        !packaged ==> (r matches Some(reg) && reg.desktop_file@ == desktop_entry_spec(
            "qrc"@,
            "Maxima Launcher"@,
            path_join(module_dir@, bootstrap_relative(Platform::Linux)),
        ) && reg.desktop_file_name@ == "maxima-qrc.desktop"@ && reg.desktop_file_path@
            == data_home@ + "/applications/"@ + "maxima-qrc.desktop"@ && reg.mime_type@
            == "x-scheme-handler/qrc"@),
{
    let bootstrap = bootstrap_path(module_dir, Platform::Linux);
    proof {
        reveal_strlit("qrc");
        reveal_strlit("maxima-qrc.desktop");
        reveal_strlit("maxima-");
        reveal_strlit(".desktop");
        reveal_strlit("x-scheme-handler/qrc");
        reveal_strlit("x-scheme-handler/");
        assert("maxima-"@ + "qrc"@ + ".desktop"@ =~= "maxima-qrc.desktop"@);
        assert("x-scheme-handler/"@ + "qrc"@ =~= "x-scheme-handler/qrc"@);
    }
    register_custom_protocol("qrc", "Maxima Launcher", bootstrap.as_str(), data_home, packaged)
}

/// Whether the `qrc` protocol is in order on Unix: always when its check is disabled;
/// otherwise the answer of `xdg-mime query default x-scheme-handler/qrc` (none when the
/// query failed) must name the launcher's desktop entry.
pub fn check_registry_validity(check_disabled: bool, query_output: Option<&str>) -> (r: Result<
    (),
    RegistryError,
>)
    ensures
        check_disabled ==> r is Ok,
        !check_disabled ==> match query_output {
            None => r == Err::<(), RegistryError>(RegistryError::XdgQueryFailed),
            Some(o) => if o@.len() > 0 && o@ == "maxima-qrc.desktop\n"@ {
                r is Ok
            } else {
                r == Err::<(), RegistryError>(RegistryError::QrcUnregistered)
            },
        },
{
    if check_disabled {
        return Ok(());
    }
    let output = match query_output {
        Some(o) => o,
        None => return Err(RegistryError::XdgQueryFailed),
    };
    proof {
        reveal_strlit("qrc");
        reveal_strlit("maxima-");
        reveal_strlit(".desktop\n");
        reveal_strlit("maxima-qrc.desktop\n");
        assert("maxima-"@ + "qrc"@ + ".desktop\n"@ =~= "maxima-qrc.desktop\n"@);
    }
    if protocol_handler_registered(output, "qrc") {
        Ok(())
    } else {
        Err(RegistryError::QrcUnregistered)
    }
}

} // verus!
