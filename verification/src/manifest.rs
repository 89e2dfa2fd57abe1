//! Installer manifests (`__Installer/installerdata.xml`) in their DiP and pre-DiP forms:
//! what a game is launched with, and the arguments of its touchup installer.
#![allow(non_snake_case)]

use crate::launch::{arg_scan, split_arguments, texts};
use crate::search::{first_index, lemma_first_index_found, lemma_first_index_none};
use crate::text::{
    concat, eq_ignore_ascii_case, eq_ignore_ascii_case_spec, push_char, replace_all, replace_spec,
    str_eq, strip_prefix_char, strip_prefix_or_keep, strip_suffix_char, strip_suffix_or_keep,
};
use vstd::prelude::*;

verus! {

pub const MANIFEST_RELATIVE_PATH: &'static str = "__Installer/installerdata.xml";

/// Why a manifest could not be used.
#[derive(Debug, Clone, PartialEq, Eq)]
pub enum ManifestError {
    /// The manifest or a value in it could not be decoded.
    Decode,
    /// The offer has no install path (its slug).
    NoInstallPath(String),
}

pub struct DiPContentIDs {
    pub items: Vec<String>,
}

pub struct DiPUninstall {
    pub path: String,
}

pub struct DiPInstallManifest {
    pub file_path: String,
}

/// `<gameTitle locale="en_US">SimCity 3000 Unlimited</gameTitle>`
pub struct DiPGameTitle {
    pub locale: String,
    pub title: String,
}

pub struct DiPGameTitles {
    pub items: Vec<DiPGameTitle>,
}

/// `<name locale="en_US">SimCity 3000 Unlimited Launcher</name>`
pub struct DiPName {
    pub locale: String,
    pub value: String,
}

pub struct DiPFeatureFlags {
    pub attr_allowMultipleInstances: String,
    pub attr_autoUpdateEnabled: String,
    pub attr_dynamicContentSupportEnabled: String,
    pub attr_enableDifferentialUpdate: String,
    pub attr_enableOriginInGameAPI: String,
    pub attr_enableVersionUpdate: String,
    pub attr_forceTouchupInstallerAfterUpdate: String,
    pub attr_languageChangeSupportEnabled: String,
    pub attr_treatUpdatesAsMandatory: String,
    pub attr_useGameVersionFromManifest: String,
}

pub struct DiPGameVersion {
    pub attr_version: String,
}

pub struct DiPRequirements {
    pub attr_clientVersion: String,
    pub attr_osMinVersion: String,
    pub attr_osReqs64Bit: String,
}

pub struct DiPBuildMetaData {
    pub featureFlags: DiPFeatureFlags,
    pub gameVersion: DiPGameVersion,
    pub requirements: DiPRequirements,
}

pub struct DiPLauncher {
    pub attr_uid: String,
    pub name: Vec<DiPName>,
    pub filePath: String,
    pub parameters: Option<String>,
    pub requires64BitOS: String,
    pub trial: String,
    pub requiresMetal: String,
}

pub struct DiPRuntime {
    pub launcher: Vec<DiPLauncher>,
}

pub struct DiPTouchup {
    pub filePath: String,
    pub parameters: String,
    pub updateParameters: String,
    pub repairParameters: String,
}

pub struct DiPManifest {
    pub attr_version: String,
    pub buildMetaData: DiPBuildMetaData,
    pub contentIds: DiPContentIDs,
    pub gameTitles: DiPGameTitles,
    pub uninstall: DiPUninstall,
    pub runtime: DiPRuntime,
    pub touchup: DiPTouchup,
    pub installManifest: DiPInstallManifest,
}

pub struct DiPLegacyManifest {
    pub executable: DiPTouchup,
}

pub fn remove_leading_slash(path: &str) -> (r: &str)
    ensures
        r@ == strip_prefix_char(path@, '/'),
{
    strip_prefix_or_keep(path, '/')
}

pub fn remove_trailing_slash(path: &str) -> (r: &str)
    ensures
        r@ == strip_suffix_char(path@, '/'),
{
    strip_suffix_or_keep(path, '/')
}

pub fn remove_trailing_backslash(path: &str) -> (r: &str)
    ensures
        r@ == strip_suffix_char(path@, '\\'),
{
    strip_suffix_or_keep(path, '\\')
}

/// The arguments of a touchup parameter string; a quotation left open is malformed.
pub open spec fn touchup_args_spec(s: Seq<char>) -> Option<Seq<Seq<char>>> {
    if arg_scan(s).in_quotes {
        None
    } else {
        Some(split_arguments(s))
    }
}

/// Splits a parameter string at spaces outside double quotes.
pub fn split_args(s: &str) -> (r: Result<Vec<String>, ManifestError>)
    ensures
        match touchup_args_spec(s@) {
            Some(a) => r matches Ok(v) && texts(v@) == a,
            None => r == Err::<Vec<String>, ManifestError>(ManifestError::Decode),
        },
{
    let (mut args, current, in_quotes) = crate::launch::scan_arguments(s);
    if in_quotes {
        return Err(ManifestError::Decode);
    }
    if !current.as_str().is_empty() {
        let ghost before = args@;
        args.push(current);
        assert(texts(args@) =~= texts(before).push(arg_scan(s@).current));
    }
    Ok(args)
}

/// The Windows view of a host path inside the Wine prefix: drive `Z:` maps the host root.
pub open spec fn platform_path_spec(path: Seq<char>) -> Seq<char> {
    seq!['Z', ':'] + path
}

/// The path under which the game sees the host path `path`.
pub fn platform_path(path: &str) -> (r: String)
    ensures
        r@ == platform_path_spec(path@),
{
    let mut r = String::new();
    push_char(&mut r, 'Z');
    push_char(&mut r, ':');
    let r2 = concat(r.as_str(), path);
    assert(r@ =~= seq!['Z', ':']);
    r2
}

/// The install location as the touchup sees it: the host path without a trailing
/// backslash, with forward slashes turned to backslashes, under drive `Z:`.
pub open spec fn touchup_install_location(install_path: Seq<char>) -> Seq<char> {
    platform_path_spec(replace_spec(strip_suffix_char(install_path, '\\'), seq!['/'], seq!['\\']))
}

/// The touchup arguments: `parameters` with `{locale}` and then `{installLocation}`
/// substituted, split into arguments.
pub open spec fn touchup_args(parameters: Seq<char>, install_path: Seq<char>, locale: Seq<char>) -> Option<Seq<Seq<char>>> {
    touchup_args_spec(
        replace_spec(
            replace_spec(parameters, "{locale}"@, locale),
            "{installLocation}"@,
            touchup_install_location(install_path),
        ),
    )
}

fn expand_touchup_args(parameters: &str, install_path: &str, locale: &str) -> (r: Result<Vec<String>, ManifestError>)
    ensures
        match touchup_args(parameters@, install_path@, locale@) {
            Some(a) => r matches Ok(v) && texts(v@) == a,
            None => r == Err::<Vec<String>, ManifestError>(ManifestError::Decode),
        },
{
    let trimmed = remove_trailing_backslash(install_path);
    let slash = "/";
    let backslash = "\\";
    proof {
        reveal_strlit("/");
        reveal_strlit("\\");
        reveal_strlit("{locale}");
        reveal_strlit("{installLocation}");
        assert(slash@ =~= seq!['/']);
        assert(backslash@ =~= seq!['\\']);
    }
    let converted = replace_all(trimmed, slash, backslash);
    let install_str = platform_path(converted.as_str());
    let with_locale = replace_all(parameters, "{locale}", locale);
    let expanded = replace_all(with_locale.as_str(), "{installLocation}", install_str.as_str());
    split_args(expanded.as_str())
}

impl DiPTouchup {
    pub fn path(&self) -> (r: &str)
        ensures
            r@ == strip_prefix_char(self.filePath@, '/'),
    {
        remove_leading_slash(self.filePath.as_str())
    }
}

/// A launcher entry is a trial launcher when its `trial` value is `1` or `true` in any case.
pub open spec fn launcher_is_trial(trial: Seq<char>) -> bool {
    trial == "1"@ || eq_ignore_ascii_case_spec(trial, "true"@)
}

/// Names in the locale `locale`.
pub open spec fn has_locale(locale: Seq<char>) -> spec_fn(DiPName) -> bool {
    |n: DiPName| n.locale@ == locale
}

/// The index of the first name in the given locale.
pub open spec fn name_in_locale(names: Seq<DiPName>, locale: Seq<char>) -> Option<int> {
    first_index(names, has_locale(locale))
}

impl DiPLauncher {
    pub fn is_trial(&self) -> (r: bool)
        ensures
            r == launcher_is_trial(self.trial@),
    {
        str_eq(self.trial.as_str(), "1") || eq_ignore_ascii_case(self.trial.as_str(), "true")
    }

    /// The launcher's name in `locale`, else its US English name.
    pub fn display_name(&self, locale: &str) -> (r: Option<&str>)
        ensures
            match name_in_locale(self.name@, locale@) {
                Some(i) => r matches Some(v) && v@ == self.name@[i].value@,
                None => match name_in_locale(self.name@, "en_US"@) {
                    Some(j) => r matches Some(v) && v@ == self.name@[j].value@,
                    None => r is None,
                },
            },
    {
        match find_name(&self.name, locale) {
            Some(i) => Some(self.name[i].value.as_str()),
            None => match find_name(&self.name, "en_US") {
                Some(j) => Some(self.name[j].value.as_str()),
                None => None,
            },
        }
    }
}

fn find_name(names: &Vec<DiPName>, locale: &str) -> (r: Option<usize>)
    ensures
        r matches Some(k) ==> k < names@.len() && name_in_locale(names@, locale@) == Some(k as int),
        r is None ==> name_in_locale(names@, locale@) is None,
{
    let ghost p = has_locale(locale@);
    let mut i: usize = 0;
    while i < names.len()
        invariant
            i <= names@.len(),
            p == has_locale(locale@),
            forall|j: int| 0 <= j < i ==> !p(#[trigger] names@[j]),
        decreases names@.len() - i,
    {
        let same = str_eq(names[i].locale.as_str(), locale);
        if same {
            proof {
                lemma_first_index_found(names@, p, i as int);
            }
            return Some(i);
        }
        i = i + 1;
    }
    proof {
        lemma_first_index_none(names@, p);
    }
    None
}

/// The locale of a manifest: US English when any of `locales` is US English, else the
/// first locale, else US English.
pub open spec fn manifest_locale(locales: Seq<Seq<char>>) -> Seq<char> {
    if exists|i: int| 0 <= i < locales.len() && locales[i] == "en_US"@ {
        "en_US"@
    } else if locales.len() > 0 {
        locales[0]
    } else {
        "en_US"@
    }
}

/// Launchers whose trial flag is `trial`.
pub open spec fn trial_flag_is(trial: bool) -> spec_fn(DiPLauncher) -> bool {
    |l: DiPLauncher| launcher_is_trial(l.trial@) == trial
}

/// The index of the first launcher whose trial flag is `trial`.
pub open spec fn launcher_for(launchers: Seq<DiPLauncher>, trial: bool) -> Option<int> {
    first_index(launchers, trial_flag_is(trial))
}

impl DiPManifest {
    pub fn version(&self) -> (r: &str)
        ensures
            r@ == self.buildMetaData.gameVersion.attr_version@,
    {
        self.buildMetaData.gameVersion.attr_version.as_str()
    }

    pub fn locale(&self) -> (r: &str)
        ensures
            r@ == manifest_locale(self.gameTitles.items@.map_values(|t: DiPGameTitle| t.locale@)),
    {
        let items = &self.gameTitles.items;
        let ghost locales = items@.map_values(|t: DiPGameTitle| t.locale@);
        let mut i: usize = 0;
        while i < items.len()
            invariant
                i <= items@.len(),
                items@ == self.gameTitles.items@,
                locales == items@.map_values(|t: DiPGameTitle| t.locale@),
                forall|j: int| 0 <= j < i ==> locales[j] != "en_US"@,
            decreases items@.len() - i,
        {
            if str_eq(items[i].locale.as_str(), "en_US") {
                assert(locales[i as int] == items@[i as int].locale@);
                return items[i].locale.as_str();
            }
            i = i + 1;
        }
        if items.len() > 0 {
            items[0].locale.as_str()
        } else {
            "en_US"
        }
    }

    /// The file path of the first launcher whose trial flag is `trial`.
    pub fn execute_path(&self, trial: bool) -> (r: Option<&str>)
        ensures
            match launcher_for(self.runtime.launcher@, trial) {
                Some(i) => r matches Some(v) && v@ == self.runtime.launcher@[i].filePath@,
                None => r is None,
            },
    {
        let launchers = &self.runtime.launcher;
        let ghost p = trial_flag_is(trial);
        let mut i: usize = 0;
        while i < launchers.len()
            invariant
                i <= launchers@.len(),
                launchers@ == self.runtime.launcher@,
                p == trial_flag_is(trial),
                forall|j: int| 0 <= j < i ==> !p(#[trigger] launchers@[j]),
            decreases launchers@.len() - i,
        {
            if launchers[i].is_trial() == trial {
                proof {
                    lemma_first_index_found(launchers@, p, i as int);
                    assert(launcher_for(self.runtime.launcher@, trial) == Some(i as int));
                }
                return Some(launchers[i].filePath.as_str());
            }
            i = i + 1;
        }
        proof {
            lemma_first_index_none(launchers@, p);
        }
        None
    }

    /// The arguments of the touchup installer for a game installed at `install_path`.
    pub fn collect_touchup_args(&self, install_path: &str, locale: &str) -> (r: Result<Vec<String>, ManifestError>)
        ensures
            match touchup_args(self.touchup.parameters@, install_path@, locale@) {
                Some(a) => r matches Ok(v) && texts(v@) == a,
                None => r == Err::<Vec<String>, ManifestError>(ManifestError::Decode),
            },
    {
        expand_touchup_args(self.touchup.parameters.as_str(), install_path, locale)
    }
}

pub struct PreDiPContentIDs {
    pub items: Vec<String>,
}

pub struct PreDiPUninstall {
    pub path: String,
}

pub struct PreDiPInstallManifest {
    pub file_path: String,
}

pub struct PreDiPFeatureFlags {
    pub attr_forceTouchupInstallerAfterUpdate: String,
    pub attr_autoUpdateEnabled: String,
    pub attr_treatUpdatesAsMandatoryEnabled: String,
    pub attr_useGameVersionFromManifestEnabled: String,
    pub attr_UnableDifferentialUpdate: String,
}

pub struct PreDiPOs {
    pub attr_minVersion: String,
}

pub struct PreDiPExecutable {
    pub filePath: String,
    pub parameters: String,
    pub updateParameters: String,
    pub repairParameters: String,
}

pub struct PreDiPLocaleInfo {
    pub attr_locale: String,
    pub title: String,
    pub eula: Vec<String>,
    pub exclude: Vec<String>,
}

pub struct PreDiPMetadata {
    pub featureFlags: PreDiPFeatureFlags,
    pub os: PreDiPOs,
    pub ignore: Vec<String>,
    pub localeInfo: Vec<PreDiPLocaleInfo>,
}

pub struct PreDiPManifest {
    pub attr_gameVersion: String,
    pub attr_manifestVersion: String,
    pub contentIds: PreDiPContentIDs,
    pub uninstall: Option<PreDiPUninstall>,
    pub metadata: PreDiPMetadata,
    pub executable: PreDiPExecutable,
    pub installManifest: PreDiPInstallManifest,
}

impl PreDiPManifest {
    pub fn version(&self) -> (r: &str)
        ensures
            r@ == self.attr_gameVersion@,
    {
        self.attr_gameVersion.as_str()
    }

    pub fn locale(&self) -> (r: &str)
        ensures
            r@ == manifest_locale(
                self.metadata.localeInfo@.map_values(|l: PreDiPLocaleInfo| l.attr_locale@),
            ),
    {
        let items = &self.metadata.localeInfo;
        let ghost locales = items@.map_values(|l: PreDiPLocaleInfo| l.attr_locale@);
        let mut i: usize = 0;
        while i < items.len()
            invariant
                i <= items@.len(),
                items@ == self.metadata.localeInfo@,
                locales == items@.map_values(|l: PreDiPLocaleInfo| l.attr_locale@),
                forall|j: int| 0 <= j < i ==> locales[j] != "en_US"@,
            decreases items@.len() - i,
        {
            if str_eq(items[i].attr_locale.as_str(), "en_US") {
                assert(locales[i as int] == items@[i as int].attr_locale@);
                return items[i].attr_locale.as_str();
            }
            i = i + 1;
        }
        if items.len() > 0 {
            items[0].attr_locale.as_str()
        } else {
            "en_US"
        }
    }

    /// The arguments of the touchup installer for a game installed at `install_path`.
    pub fn collect_touchup_args(&self, install_path: &str, locale: &str) -> (r: Result<Vec<String>, ManifestError>)
        ensures
            match touchup_args(self.executable.parameters@, install_path@, locale@) {
                Some(a) => r matches Ok(v) && texts(v@) == a,
                None => r == Err::<Vec<String>, ManifestError>(ManifestError::Decode),
            },
    {
        expand_touchup_args(self.executable.parameters.as_str(), install_path, locale)
    }

    /// Splits a parameter string at spaces outside double quotes.
    pub fn split_args(s: &str) -> (r: Result<Vec<String>, ManifestError>)
        ensures
            match touchup_args_spec(s@) {
                Some(a) => r matches Ok(v) && texts(v@) == a,
                None => r == Err::<Vec<String>, ManifestError>(ManifestError::Decode),
            },
    {
        split_args(s)
    }

    /// Pre-DiP manifests name no executable; the offer's data is used instead.
    pub fn execute_path(&self, trial: bool) -> (r: Option<&str>)
        ensures
            r is None,
    {
        None
    }
}


/// A game's installer manifest, of either generation.
pub trait GameManifest {
    /// The executable the manifest names for a trial or a full launch.
    fn manifest_execute_path(&self, trial: bool) -> Option<String>;
}

impl GameManifest for DiPManifest {
    fn manifest_execute_path(&self, trial: bool) -> (r: Option<String>)
        ensures
            match launcher_for(self.runtime.launcher@, trial) {
                Some(i) => r matches Some(v) && v@ == self.runtime.launcher@[i].filePath@,
                None => r is None,
            },
    {
        match self.execute_path(trial) {
            Some(p) => Some(p.to_string()),
            None => None,
        }
    }
}

impl GameManifest for PreDiPManifest {
    fn manifest_execute_path(&self, trial: bool) -> (r: Option<String>)
        ensures
            r is None,
    {
        None
    }
}
} // verus!
