//! Launch modes and the splitting of launch argument strings.

use crate::text::{concat, push_char, starts_with, starts_with_spec};
use vstd::prelude::*;

verus! {

/// When an injected library is loaded.
#[derive(Debug, Clone, Copy, PartialEq, Eq)]
pub enum StartupStage {
    Launch,
    ConnectionEstablished,
}

/// A library to inject into the game process.
pub struct LibraryInjection {
    pub path: String,
    pub stage: StartupStage,
}

/// How a game is launched.
pub enum LaunchMode {
    /// Completely offline, relies on cached license files and user IDs (offer ID)
    Offline(String),
    /// Online, makes requests about the user and licensing (offer ID)
    Online(String),
    /// Online, but only for license requests; everything else uses dummy offer and user IDs
    /// (content ID, persona, password)
    OnlineOffline(String, String, String),
}

impl LaunchMode {
    pub fn is_online_offline(&self) -> (r: bool)
        ensures
            r <==> self is OnlineOffline,
    {
        match self {
            LaunchMode::OnlineOffline(_, _, _) => true,
            _ => false,
        }
    }

    /// The identifier a launch is shown with: the offer ID, or the content ID for an
    /// online-offline launch.
    pub fn to_display_string(&self) -> (r: String)
        ensures
            r@ == match self {
                LaunchMode::Offline(id) => id@,
                LaunchMode::Online(id) => id@,
                LaunchMode::OnlineOffline(content_id, _, _) => content_id@,
            },
    {
        match self {
            LaunchMode::Offline(offer_id) => offer_id.clone(),
            LaunchMode::Online(offer_id) => offer_id.clone(),
            LaunchMode::OnlineOffline(content_id, _, _) => content_id.clone(),
        }
    }
}

/// What the bootstrapper is asked to launch.
pub struct BootstrapLaunchArgs {
    pub path: String,
    pub args: Vec<String>,
}

impl Default for BootstrapLaunchArgs {
    fn default() -> (r: BootstrapLaunchArgs)
        ensures
            r.path@ == Seq::<char>::empty(),
            r.args@ == Seq::<String>::empty(),
    {
        BootstrapLaunchArgs { path: String::new(), args: Vec::new() }
    }
}

/// The state of splitting an argument string: the arguments completed so far, the one
/// being read, and whether a quotation is open.
pub struct ArgSplit {
    pub args: Seq<Seq<char>>,
    pub current: Seq<char>,
    pub in_quotes: bool,
}

/// One character of an argument string: a double quote opens or closes a quotation
/// (and is dropped), a space outside quotes ends a non-empty argument, any other
/// character extends the current argument.
pub open spec fn arg_step(st: ArgSplit, c: char) -> ArgSplit {
    if c == '"' {
        ArgSplit { in_quotes: !st.in_quotes, ..st }
    } else if c == ' ' && !st.in_quotes {
        if st.current.len() != 0 {
            ArgSplit { args: st.args.push(st.current), current: Seq::empty(), ..st }
        } else {
            st
        }
    } else {
        ArgSplit { current: st.current.push(c), ..st }
    }
}

/// The splitting state after reading all of `s`.
pub open spec fn arg_scan(s: Seq<char>) -> ArgSplit
    decreases s.len(),
{
    if s.len() == 0 {
        ArgSplit { args: Seq::empty(), current: Seq::empty(), in_quotes: false }
    } else {
        arg_step(arg_scan(s.drop_last()), s.last())
    }
}

/// The arguments of `s`: those completed, and the last one when it is not empty.
pub open spec fn split_arguments(s: Seq<char>) -> Seq<Seq<char>> {
    let st = arg_scan(s);
    if st.current.len() != 0 {
        st.args.push(st.current)
    } else {
        st.args
    }
}

/// The texts of a list of strings.
pub open spec fn texts(v: Seq<String>) -> Seq<Seq<char>> {
    v.map_values(|s: String| s@)
}

/// Scans `input` and returns the completed arguments, the pending one and the quote state.
pub(crate) fn scan_arguments(input: &str) -> (r: (Vec<String>, String, bool))
    ensures
        texts(r.0@) == arg_scan(input@).args,
        r.1@ == arg_scan(input@).current,
        r.2 == arg_scan(input@).in_quotes,
{
    let mut args: Vec<String> = Vec::new();
    let mut current_arg = String::new();
    let mut in_quotes = false;
    for c in it: input.chars()
        invariant
            it.seq() == input@,
            texts(args@) == arg_scan(it.seq().take(it.index() as int)).args,
            current_arg@ == arg_scan(it.seq().take(it.index() as int)).current,
            in_quotes == arg_scan(it.seq().take(it.index() as int)).in_quotes,
    {
        proof {
            let t = it.seq().take(it.index() + 1);
            assert(t.drop_last() =~= it.seq().take(it.index() as int));
        }
        let ghost before = args@;
        if c == ' ' && !in_quotes {
            if !current_arg.as_str().is_empty() {
                args.push(current_arg.clone());
                current_arg = String::new();
                assert(texts(args@) =~= texts(before).push(arg_scan(it.seq().take(it.index() as int)).current));
            }
        } else if c == '"' {
            in_quotes = !in_quotes;
        } else {
            push_char(&mut current_arg, c);
        }
    }
    proof {
        assert(input@.take(input@.len() as int) =~= input@);
    }
    (args, current_arg, in_quotes)
}

/// Splits a launch argument string at spaces outside double quotes.
pub fn parse_arguments(input: &str) -> (r: Vec<String>)
    ensures
        texts(r@) == split_arguments(input@),
{
    let (mut args, current_arg, _) = scan_arguments(input);
    if !current_arg.as_str().is_empty() {
        let ghost before = args@;
        args.push(current_arg);
        assert(texts(args@) =~= texts(before).push(arg_scan(input@).current));
    }
    args
}


/// Why a launch cannot start.
#[derive(Debug, Clone, Copy, PartialEq, Eq, Structural)]
pub enum LaunchError {
    /// An online-offline launch names no game path.
    PathRequired,
    /// An online-offline launch was given an offer id where a content id belongs.
    ContentIdIsOfferId,
    /// Offline launches are not supported.
    OfflineUnsupported,
}

/// Whether a launch can start: an online-offline launch needs a game path and a content
/// id (not an `Origin.OFR` offer id); offline launches are not supported.
pub fn check_launch_mode(mode: &LaunchMode, has_path_override: bool) -> (r: Result<(), LaunchError>)
    ensures
        match mode {
            LaunchMode::OnlineOffline(content_id, _, _) => if !has_path_override {
                r == Err::<(), LaunchError>(LaunchError::PathRequired)
            } else if starts_with_spec(content_id@, "Origin.OFR"@) {
                r == Err::<(), LaunchError>(LaunchError::ContentIdIsOfferId)
            } else {
                r is Ok
            },
            LaunchMode::Online(_) => r is Ok,
            LaunchMode::Offline(_) => r == Err::<(), LaunchError>(LaunchError::OfflineUnsupported),
        },
{
    match mode {
        LaunchMode::OnlineOffline(content_id, _, _) => {
            if !has_path_override {
                return Err(LaunchError::PathRequired);
            }
            if starts_with(content_id.as_str(), "Origin.OFR") {
                return Err(LaunchError::ContentIdIsOfferId);
            }
            Ok(())
        },
        LaunchMode::Online(_) => Ok(()),
        LaunchMode::Offline(_) => Err(LaunchError::OfflineUnsupported),
    }
}

/// What a game is told about the launch, beyond its mode.
pub struct LaunchContext {
    pub launch_id: String,
    pub locale: String,
    pub access_token: String,
    pub display_name: String,
    pub lsx_port: String,
    pub rtp_code: String,
    pub user_id: String,
    pub content_id: String,
}

/// The environment a game is started with, in order; later entries of a name replace
/// earlier ones.
pub open spec fn launch_env_spec(c: LaunchContext, mode: LaunchMode) -> Seq<(Seq<char>, Seq<char>)> {
    let base = seq![
        ("MXLaunchId"@, c.launch_id@),
        ("EAAuthCode"@, "unavailable"@),
        ("EAEgsProxyIpcPort"@, "0"@),
        ("EAEntitlementSource"@, "EA"@),
        ("EAExternalSource"@, "EA"@),
        ("EAFreeTrialGame"@, "false"@),
        ("EAGameLocale"@, c.locale@),
        ("EAGenericAuthToken"@, c.access_token@),
        ("EALaunchCode"@, ""@),
        ("EALaunchEAID"@, c.display_name@),
        ("EALaunchEnv"@, "production"@),
        ("EALaunchOfflineMode"@, "false"@),
        ("EALsxPort"@, c.lsx_port@),
        ("EARtPLaunchCode"@, c.rtp_code@),
        ("EASecureLaunchTokenTemp"@, c.user_id@),
        ("EASteamProxyIpcPort"@, "0"@),
        ("OriginSessionKey"@, c.launch_id@),
        ("ContentId"@, c.content_id@),
        ("EAOnErrorExitRetCode"@, "1"@),
    ];
    match mode {
        LaunchMode::Online(offer_id) => base + seq![
            ("EAConnectionId"@, offer_id@),
            ("EALicenseToken"@, offer_id@),
            ("EALaunchUserAuthToken"@, c.access_token@),
        ],
        LaunchMode::OnlineOffline(_, persona, password) => base + seq![
            ("EALaunchOOAUserEmail"@, persona@),
            ("EALaunchOOAUserPass"@, password@),
            ("EAOnErrorExitRetCode"@, "1"@),
        ],
        LaunchMode::Offline(_) => base,
    }
}

/// The views of name/value pairs.
pub open spec fn env_views(v: Seq<(String, String)>) -> Seq<(Seq<char>, Seq<char>)> {
    v.map_values(|p: (String, String)| (p.0@, p.1@))
}

fn push_env(v: &mut Vec<(String, String)>, k: &str, val: &str)
    ensures
        env_views(final(v)@) == env_views(old(v)@).push((k@, val@)),
{
    v.push((k.to_string(), val.to_string()));
    assert(env_views(v@) =~= env_views(old(v)@).push((k@, val@)));
}

/// The environment of a launch that has passed `check_launch_mode`.
pub fn launch_env(c: &LaunchContext, mode: &LaunchMode) -> (r: Vec<(String, String)>)
    requires
        !(mode is Offline),
    ensures
        env_views(r@) == launch_env_spec(*c, *mode),
{
    let mut v: Vec<(String, String)> = Vec::new();
    assert(env_views(v@) =~= Seq::<(Seq<char>, Seq<char>)>::empty());
    push_env(&mut v, "MXLaunchId", c.launch_id.as_str());
    push_env(&mut v, "EAAuthCode", "unavailable");
    push_env(&mut v, "EAEgsProxyIpcPort", "0");
    push_env(&mut v, "EAEntitlementSource", "EA");
    push_env(&mut v, "EAExternalSource", "EA");
    push_env(&mut v, "EAFreeTrialGame", "false");
    push_env(&mut v, "EAGameLocale", c.locale.as_str());
    push_env(&mut v, "EAGenericAuthToken", c.access_token.as_str());
    push_env(&mut v, "EALaunchCode", "");
    push_env(&mut v, "EALaunchEAID", c.display_name.as_str());
    push_env(&mut v, "EALaunchEnv", "production");
    push_env(&mut v, "EALaunchOfflineMode", "false");
    push_env(&mut v, "EALsxPort", c.lsx_port.as_str());
    push_env(&mut v, "EARtPLaunchCode", c.rtp_code.as_str());
    push_env(&mut v, "EASecureLaunchTokenTemp", c.user_id.as_str());
    push_env(&mut v, "EASteamProxyIpcPort", "0");
    push_env(&mut v, "OriginSessionKey", c.launch_id.as_str());
    push_env(&mut v, "ContentId", c.content_id.as_str());
    push_env(&mut v, "EAOnErrorExitRetCode", "1");
    let ghost base = env_views(v@);
    match mode {
        LaunchMode::Online(offer_id) => {
            push_env(&mut v, "EAConnectionId", offer_id.as_str());
            push_env(&mut v, "EALicenseToken", offer_id.as_str());
            push_env(&mut v, "EALaunchUserAuthToken", c.access_token.as_str());
            assert(env_views(v@) =~= base + seq![
                ("EAConnectionId"@, offer_id@),
                ("EALicenseToken"@, offer_id@),
                ("EALaunchUserAuthToken"@, c.access_token@),
            ]);
        },
        LaunchMode::OnlineOffline(_, persona, password) => {
            push_env(&mut v, "EALaunchOOAUserEmail", persona.as_str());
            push_env(&mut v, "EALaunchOOAUserPass", password.as_str());
            push_env(&mut v, "EAOnErrorExitRetCode", "1");
            assert(env_views(v@) =~= base + seq![
                ("EALaunchOOAUserEmail"@, persona@),
                ("EALaunchOOAUserPass"@, password@),
                ("EAOnErrorExitRetCode"@, "1"@),
            ]);
        },
        LaunchMode::Offline(_) => {},
    }
    v
}

/// Standard base64 encoding (with padding).
pub uninterp spec fn base64_encode(data: Seq<u8>) -> Seq<char>;

/// `base64::engine::general_purpose::STANDARD.encode(data)`, named by `base64_encode`.
#[verifier::external_body]
pub(crate) fn base64_standard_encode(data: &[u8]) -> (r: String)
    ensures
        r@ == base64_encode(data@),
{
    base64::Engine::encode(&base64::engine::general_purpose::STANDARD, data)
}

/// The argument the bootstrapper receives: the JSON of its launch arguments, in base64.
pub fn bootstrap_argument(json: &str) -> (r: String)
    ensures
        r@ == base64_encode(vstd::utf8::encode_utf8(json@)),
{
    base64_standard_encode(json.as_bytes())
}
} // verus!
