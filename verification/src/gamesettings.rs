//! Per-game settings and the store that keeps them by game slug.

use crate::assoc::{assoc_insert, assoc_map, last_position, lemma_assoc_absent, lemma_assoc_last};
use crate::text::{concat, path_join, path_join_exec};
use vstd::prelude::*;

verus! {

/// What the user chose for one game.
pub struct GameSettings {
    pub cloud_saves: bool,
    pub installed: bool,
    pub launch_args: String,
    pub exe_override: String,
}

/// Settings of a game nobody configured: cloud saves on, not installed, no arguments and
/// no executable override.
pub open spec fn default_settings_spec(s: GameSettings) -> bool {
    &&& s.cloud_saves
    &&& !s.installed
    &&& s.launch_args@ == Seq::<char>::empty()
    &&& s.exe_override@ == Seq::<char>::empty()
}

impl Clone for GameSettings {
    fn clone(&self) -> (r: Self)
        ensures
            r == *self,
    {
        GameSettings {
            cloud_saves: self.cloud_saves,
            installed: self.installed,
            launch_args: self.launch_args.clone(),
            exe_override: self.exe_override.clone(),
        }
    }
}

impl GameSettings {
    pub fn new() -> (r: Self)
        ensures
            default_settings_spec(r),
    {
        GameSettings {
            cloud_saves: true,
            installed: false,
            launch_args: String::new(),
            exe_override: String::new(),
        }
    }

    pub fn cloud_saves(&self) -> (r: bool)
        ensures
            r == self.cloud_saves,
    {
        self.cloud_saves
    }

    pub fn launch_args(&self) -> (r: &str)
        ensures
            r@ == self.launch_args@,
    {
        self.launch_args.as_str()
    }

    pub fn exe_override(&self) -> (r: &str)
        ensures
            r@ == self.exe_override@,
    {
        self.exe_override.as_str()
    }

    /// Takes the values the user edited; whether the game is installed stays as it was.
    pub fn update_from(&mut self, cloud_saves: bool, launch_args: String, exe_override: String)
        ensures
            final(self).cloud_saves == cloud_saves,
            final(self).launch_args == launch_args,
            final(self).exe_override == exe_override,
            final(self).installed == old(self).installed,
    {
        self.cloud_saves = cloud_saves;
        self.launch_args = launch_args;
        self.exe_override = exe_override;
    }
}

/// The settings of a slug in a store: the saved ones, or those of an unconfigured game.
pub open spec fn settings_of(m: Map<Seq<char>, GameSettings>, slug: Seq<char>, s: GameSettings) -> bool {
    if m.contains_key(slug) {
        s == m[slug]
    } else {
        default_settings_spec(s)
    }
}

/// The settings of all games, by slug.
pub struct GameSettingsManager {
    entries: Vec<(String, GameSettings)>,
}

impl View for GameSettingsManager {
    type V = Map<Seq<char>, GameSettings>;

    closed spec fn view(&self) -> Map<Seq<char>, GameSettings> {
        assoc_map(self.entries@)
    }
}

impl GameSettingsManager {
    pub fn new() -> (r: Self)
        ensures
            r@ == Map::<Seq<char>, GameSettings>::empty(),
    {
        GameSettingsManager { entries: Vec::new() }
    }

    /// The settings saved for `slug`, or those of an unconfigured game.
    pub fn get(&self, slug: &str) -> (r: GameSettings)
        ensures
            settings_of(self@, slug@, r),
    {
        match last_position(&self.entries, slug) {
            Some(i) => {
                proof {
                    lemma_assoc_last(self.entries@, i as int);
                }
                self.entries[i].1.clone()
            },
            None => {
                proof {
                    lemma_assoc_absent(self.entries@, slug@);
                }
                GameSettings::new()
            },
        }
    }

    /// Keeps `settings` as those of `slug`, in place of any saved before.
    pub fn save(&mut self, slug: &str, settings: GameSettings)
        ensures
            final(self)@ == old(self)@.insert(slug@, settings),
    {
        assoc_insert(&mut self.entries, slug, settings);
    }
}

/// Reading back: after `settings` are saved for `slug`, reading `slug` gives them, and
/// reading any other slug gives what it gave before.
pub proof fn lemma_get_after_save(
    before: GameSettingsManager,
    after: GameSettingsManager,
    slug: Seq<char>,
    settings: GameSettings,
    other: Seq<char>,
    read: GameSettings,
)
    requires
        after@ == before@.insert(slug, settings),
    ensures
        settings_of(after@, slug, read) <==> read == settings,
        other != slug ==> (settings_of(after@, other, read) <==> settings_of(before@, other, read)),
{
}

/// Where the settings of a game are kept: `settings/<slug>.json` under the launcher's data
/// directory.
pub fn settings_path(maxima_dir: &str, slug: &str) -> (r: String)
    ensures
        r@ == path_join(path_join(maxima_dir@, "settings"@), slug@ + ".json"@),
{
    let dir = path_join_exec(maxima_dir, "settings");
    let file = concat(slug, ".json");
    path_join_exec(dir.as_str(), file.as_str())
}

/// Where to write the settings of a game: only an installed game's settings are kept.
pub fn save_game_settings(maxima_dir: &str, slug: &str, settings: &GameSettings) -> (r: Option<String>)
    ensures
        !settings.installed ==> r is None,
        settings.installed ==> (r matches Some(p) && p@ == path_join(
            path_join(maxima_dir@, "settings"@),
            slug@ + ".json"@,
        )),
{
    if !settings.installed {
        return None;
    }
    Some(settings_path(maxima_dir, slug))
}

} // verus!
