//! The launcher's top-level state that needs no outside service: settings a game may ask
//! for, the events it reports to its front end, and the options it starts with.

use crate::hardware::{decimal, decimal_spec};
use crate::lsx::LSXRequestType;
use crate::text::{concat, path_join, path_join_exec};
use vstd::prelude::*;
use vstd::string::StrSliceExecFns;

verus! {

/// A launcher setting a game can read over LSX.
#[derive(Debug, Clone, Copy, PartialEq, Eq, Structural)]
pub enum MaximaSetting {
    IsIgoEnabled,
    IsIgoAvailable,
    Environment,
}

impl Default for MaximaSetting {
    fn default() -> (r: Self)
        ensures
            r == MaximaSetting::IsIgoEnabled,
    {
        MaximaSetting::IsIgoEnabled
    }
}

/// What the launcher tells its front end.
#[derive(Debug, Clone)]
pub enum MaximaEvent {
    /// A game (by process id) sent an LSX request.
    ReceivedLSXRequest(u32, LSXRequestType),
    /// The install of an offer (by id) finished.
    InstallFinished(String),
}

/// How the launcher starts: whether it loads the saved logins, and whether it makes up a
/// local user instead of asking the service.
pub struct MaximaOptions {
    pub load_auth_storage: bool,
    pub dummy_local_user: bool,
}

/// Events waiting for the front end, oldest first.
pub struct PendingEvents {
    events: Vec<MaximaEvent>,
}

impl View for PendingEvents {
    type V = Seq<MaximaEvent>;

    closed spec fn view(&self) -> Seq<MaximaEvent> {
        self.events@
    }
}

impl PendingEvents {
    pub fn new() -> (r: Self)
        ensures
            r@ == Seq::<MaximaEvent>::empty(),
    {
        PendingEvents { events: Vec::new() }
    }

    /// Queues an event.
    pub fn call_event(&mut self, event: MaximaEvent)
        ensures
            final(self)@ == old(self)@.push(event),
    {
        self.events.push(event);
    }

    /// Hands out every waiting event, oldest first, and forgets them.
    pub fn consume_pending_events(&mut self) -> (r: Vec<MaximaEvent>)
        ensures
            r@ == old(self)@,
            final(self)@ == Seq::<MaximaEvent>::empty(),
    {
        let mut out: Vec<MaximaEvent> = Vec::new();
        std::mem::swap(&mut out, &mut self.events);
        out
    }
}

/// The value of a string of decimal digits, if all of them are digits.
pub open spec fn decimal_value(d: Seq<char>) -> Option<nat>
    decreases d.len(),
{
    if d.len() == 0 {
        Some(0)
    } else if '0' <= d.last() && d.last() <= '9' {
        match decimal_value(d.drop_last()) {
            Some(v) => Some((v * 10 + (d.last() as nat - '0' as nat)) as nat),
            None => None,
        }
    } else {
        None
    }
}

/// `str::parse` for an unsigned integer type whose largest value is `max`: an optional
/// `+` and at least one decimal digit, with a value that fits.
pub open spec fn parse_bounded_spec(s: Seq<char>, max: nat) -> Option<nat> {
    let d = if s.len() > 0 && s[0] == '+' {
        s.drop_first()
    } else {
        s
    };
    if d.len() == 0 {
        None
    } else {
        match decimal_value(d) {
            Some(v) => if v <= max {
                Some(v)
            } else {
                None
            },
            None => None,
        }
    }
}

/// `str::parse::<u16>`.
pub open spec fn parse_u16_spec(s: Seq<char>) -> Option<u16> {
    match parse_bounded_spec(s, 0xFFFF) {
        Some(v) => Some(v as u16),
        None => None,
    }
}

/// `str::parse::<u32>`.
pub open spec fn parse_u32_spec(s: Seq<char>) -> Option<u32> {
    match parse_bounded_spec(s, 0xFFFF_FFFF) {
        Some(v) => Some(v as u32),
        None => None,
    }
}

proof fn lemma_decimal_value_prefix(d: Seq<char>, k: int)
    requires
        0 <= k <= d.len(),
        decimal_value(d) is Some,
    ensures
        decimal_value(d.take(k)) is Some,
        decimal_value(d.take(k))->0 <= decimal_value(d)->0,
    decreases d.len(),
{
    if k < d.len() {
        assert(d.drop_last().take(k) =~= d.take(k));
        lemma_decimal_value_prefix(d.drop_last(), k);
    } else {
        assert(d.take(k) =~= d);
    }
}

fn parse_bounded(s: &str, max: u64) -> (r: Option<u64>)
    ensures
        match parse_bounded_spec(s@, max as nat) {
            Some(v) => r == Some(v as u64),
            None => r is None,
        },
{
    let n = s.unicode_len();
    let start: usize = if n > 0 && s.get_char(0) == '+' {
        1
    } else {
        0
    };
    let ghost d = if s@.len() > 0 && s@[0] == '+' {
        s@.drop_first()
    } else {
        s@
    };
    assert(d =~= s@.subrange(start as int, n as int));
    if start == n {
        return None;
    }
    let mut v: u128 = 0;
    let mut i: usize = start;
    assert(d.take(0) =~= Seq::<char>::empty());
    while i < n
        invariant
            n == s@.len(),
            start <= i <= n,
            d == s@.subrange(start as int, n as int),
            d == (if s@.len() > 0 && s@[0] == '+' {
                s@.drop_first()
            } else {
                s@
            }),
            d.len() > 0,
            decimal_value(d.take(i - start)) == Some(v as nat),
            v <= max,
        decreases n - i,
    {
        let c = s.get_char(i);
        assert(d.take(i - start + 1).drop_last() =~= d.take(i - start));
        assert(d.take(i - start + 1).last() == c);
        if !('0' <= c && c <= '9') {
            proof {
                if decimal_value(d) is Some {
                    lemma_decimal_value_prefix(d, i - start + 1);
                }
            }
            return None;
        }
        let nv = v * 10 + ((c as u128) - 48);
        if nv > max as u128 {
            proof {
                if decimal_value(d) is Some {
                    lemma_decimal_value_prefix(d, i - start + 1);
                }
            }
            return None;
        }
        v = nv;
        i = i + 1;
    }
    assert(d.take(n - start) =~= d);
    Some(v as u64)
}

/// `str::parse::<u16>`.
pub fn parse_u16(s: &str) -> (r: Option<u16>)
    ensures
        r == parse_u16_spec(s@),
{
    match parse_bounded(s, 0xFFFF) {
        Some(v) => Some(v as u16),
        None => None,
    }
}

/// `str::parse::<u32>`.
pub fn parse_u32(s: &str) -> (r: Option<u32>)
    ensures
        r == parse_u32_spec(s@),
{
    match parse_bounded(s, 0xFFFF_FFFF) {
        Some(v) => Some(v as u32),
        None => None,
    }
}

/// `str::parse::<u64>`.
pub open spec fn parse_u64_spec(s: Seq<char>) -> Option<u64> {
    match parse_bounded_spec(s, 0xFFFF_FFFF_FFFF_FFFF) {
        Some(v) => Some(v as u64),
        None => None,
    }
}

/// `str::parse::<u64>`.
pub fn parse_u64(s: &str) -> (r: Option<u64>)
    ensures
        r == parse_u64_spec(s@),
{
    parse_bounded(s, 0xFFFF_FFFF_FFFF_FFFF)
}

/// The LSX port: the value of `MAXIMA_LSX_PORT` when it is set (nothing when that does
/// not parse), 3216 otherwise.
pub fn lsx_port_from_env(value: Option<&str>) -> (r: Option<u16>)
    ensures
        match value {
            Some(v) => r == parse_u16_spec(v@),
            None => r == Some(3216u16),
        },
{
    match value {
        Some(v) => parse_u16(v),
        None => Some(3216),
    }
}

/// Where an avatar image of a user is cached: `cache/avatars/<id>_<width>x<height>.jpg`
/// under the launcher's data directory.
pub fn cached_avatar_path(maxima_dir: &str, id: &str, width: u16, height: u16) -> (r: String)
    ensures
        r@ == path_join(
            path_join(maxima_dir@, "cache/avatars"@),
            id@ + "_"@ + decimal_spec(width as nat) + "x"@ + decimal_spec(height as nat) + ".jpg"@,
        ),
{
    let dir = path_join_exec(maxima_dir, "cache/avatars");
    let w = decimal(width as u64);
    let h = decimal(height as u64);
    let a = concat(id, "_");
    let b = concat(a.as_str(), w.as_str());
    let c = concat(b.as_str(), "x");
    let d = concat(c.as_str(), h.as_str());
    let file = concat(d.as_str(), ".jpg");
    path_join_exec(dir.as_str(), file.as_str())
}

/// What the launcher does about the game it started when it checks on it.
#[derive(Debug, Clone, Copy, PartialEq, Eq, Structural)]
pub enum PlayingAction {
    /// Nothing: no game, a game still talking over LSX, or a game still running.
    Nothing,
    /// The game has stopped: its saves are written to the cloud when asked, the presence
    /// goes back to online, and the game is forgotten.
    Stopped { sync_cloud_saves: bool },
}

/// The check on the game being played: `lsx_connections` games are connected over LSX,
/// `playing` tells whether a game was started, `running` whether its process has not
/// exited, `cloud_saves` whether the user wants cloud saves, and `offer_has_cloud_save`
/// whether the game (when its offer is known) keeps saves in the cloud.
pub fn update_playing_status(
    lsx_connections: u16,
    playing: bool,
    running: bool,
    cloud_saves: bool,
    offer_has_cloud_save: Option<bool>,
) -> (r: PlayingAction)
    ensures
        lsx_connections > 0 || !playing || running ==> r == PlayingAction::Nothing,
        !(lsx_connections > 0 || !playing || running) ==> r == (PlayingAction::Stopped {
            sync_cloud_saves: cloud_saves && offer_has_cloud_save == Some(true),
        }),
{
    if lsx_connections > 0 || !playing || running {
        return PlayingAction::Nothing;
    }
    let sync = match offer_has_cloud_save {
        Some(has) => cloud_saves && has,
        None => false,
    };
    PlayingAction::Stopped { sync_cloud_saves: sync }
}

} // verus!
