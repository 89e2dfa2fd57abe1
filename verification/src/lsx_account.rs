#![allow(non_snake_case)]
//! The LSX replies about the user, their friends and their licenses, built from what the
//! launcher learnt from the service.

use crate::auth::{split_char, split_spec};
use crate::launch::LaunchMode;
use crate::lsx::{
    friend_entry, game_text, lsx_presence_spec, presence_friend, presence_status, FriendError,
    LSXAuthCode, LSXFriend, LSXFriendState, LSXGetProfileResponse, LSXImage, LSXPresence,
    LSXEntitlement, LSXQueryEntitlements, LSXQueryEntitlementsResponse,
    LSXQueryFriendsResponse, LSXQueryImage, LSXQueryImageResponse, LSXQueryPresence,
    LSXQueryPresenceResponse, LSXRequestError, LSXRequestLicenseResponse, LSXResponseType,
    LSXSetPresence, error_success, LSXGetAllGameInfoResponse, LANGUAGES,
};
use crate::maxima::{parse_u64, parse_u64_spec};
use crate::ooa::{License, LicenseAuth};
use crate::rtm::RichPresence;
use crate::service_layer::ServiceAvailableBuild;
use crate::text::views;
use vstd::prelude::*;

verus! {

/// The profile reply for the local user (unique name, user id, persona id) and the local
/// path of their avatar: a subscriber-less adult in the US paying in dollars.
pub fn handle_profile_request(unique_name: &str, user_id: &str, persona_id: &str, avatar_path: &str) -> (r:
    Result<LSXResponseType, FriendError>)
    ensures
        match (parse_u64_spec(user_id@), parse_u64_spec(persona_id@)) {
            (Some(uid), Some(pid)) => r matches Ok(LSXResponseType::GetProfileResponse(p)) && p.attr_Persona@
                == unique_name@ && p.attr_UserId == uid && p.attr_PersonaId == pid && p.attr_AvatarId@
                == avatar_path@ && p.attr_SubscriberLevel == 0 && p.attr_CommerceCurrency@ == "USD"@
                && !p.attr_IsTrialSubscriber && p.attr_Country@ == "US"@ && p.attr_GeoCountry@ == "US"@
                && !p.attr_IsSubscriber && !p.attr_IsSteamSubscriber && !p.attr_IsUnderAge
                && p.attr_UserIndex == 0,
            _ => r == Err::<LSXResponseType, FriendError>(FriendError::Parse),
        },
{
    let uid = match parse_u64(user_id) {
        Some(u) => u,
        None => return Err(FriendError::Parse),
    };
    let pid = match parse_u64(persona_id) {
        Some(p) => p,
        None => return Err(FriendError::Parse),
    };
    Ok(
        LSXResponseType::GetProfileResponse(
            LSXGetProfileResponse {
                attr_Persona: unique_name.to_string(),
                attr_SubscriberLevel: 0,
                attr_CommerceCurrency: "USD".to_string(),
                attr_IsTrialSubscriber: false,
                attr_Country: "US".to_string(),
                attr_UserId: uid,
                attr_GeoCountry: "US".to_string(),
                attr_AvatarId: avatar_path.to_string(),
                attr_IsSubscriber: false,
                attr_IsSteamSubscriber: false,
                attr_PersonaId: pid,
                attr_IsUnderAge: false,
                attr_UserIndex: 0,
            },
        ),
    )
}

/// The users of a presence query whose presence is known, in the query's order.
pub open spec fn known_presences(users: Seq<u64>, presences: Seq<Option<RichPresence>>) -> Seq<(u64, RichPresence)>
    decreases users.len(),
{
    if users.len() == 0 || presences.len() == 0 {
        Seq::empty()
    } else {
        let rest = known_presences(users.drop_last(), presences.drop_last());
        match presences.last() {
            Some(p) => rest.push((users.last(), p)),
            None => rest,
        }
    }
}

/// The entry of a presence query for a user with a known presence.
pub open spec fn presence_entry_ok(f: LSXFriend, user: u64, p: RichPresence) -> bool {
    &&& f.attr_UserId == user
    &&& f.attr_Persona@ == "------"@
    &&& f.attr_RichPresence@ == p.status@
    &&& f.attr_GamePresence@ == game_text(p)
    &&& f.attr_PersonaId@ == "0"@
    &&& f.attr_Presence == LSXPresence::Ingame
    &&& f.attr_State == LSXFriendState::NoRelation
}

/// The presence reply: an entry for each queried user whose presence the launcher knows
/// (`presences[i]` is that of `request.Users[i]`), in the query's order.
pub fn handle_query_presence_request(request: &LSXQueryPresence, presences: &Vec<Option<RichPresence>>) -> (r:
    LSXResponseType)
    requires
        presences.len() == request.Users.len(),
    ensures
        r matches LSXResponseType::QueryPresenceResponse(q) && ({
            let known = known_presences(request.Users@, presences@);
            &&& q.friend.len() == known.len()
            &&& forall|i: int| 0 <= i < known.len() ==> presence_entry_ok(#[trigger] q.friend@[i], known[i].0, known[i].1)
        }),
{
    let mut friends: Vec<LSXFriend> = Vec::new();
    let mut i: usize = 0;
    assert(request.Users@.take(0) =~= Seq::<u64>::empty());
    while i < request.Users.len()
        invariant
            i <= request.Users.len(),
            presences.len() == request.Users.len(),
            ({
                let known = known_presences(request.Users@.take(i as int), presences@.take(i as int));
                &&& friends.len() == known.len()
                &&& forall|j: int| 0 <= j < known.len() ==> presence_entry_ok(#[trigger] friends@[j], known[j].0, known[j].1)
            }),
        decreases request.Users.len() - i,
    {
        let ghost us = request.Users@.take(i + 1);
        let ghost ps = presences@.take(i + 1);
        assert(us.drop_last() =~= request.Users@.take(i as int));
        assert(ps.drop_last() =~= presences@.take(i as int));
        assert(us.last() == request.Users@[i as int]);
        assert(ps.last() == presences@[i as int]);
        match &presences[i] {
            Some(p) => {
                let f = presence_friend(request.Users[i], p);
                friends.push(f);
            },
            None => {},
        }
        i = i + 1;
    }
    assert(request.Users@.take(i as int) =~= request.Users@);
    assert(presences@.take(i as int) =~= presences@);
    LSXResponseType::QueryPresenceResponse(LSXQueryPresenceResponse { friend: friends })
}

/// A friend of the user as the service lists them.
pub struct FriendRecord {
    pub relationship: String,
    pub id: String,
    pub pd: String,
    pub unique_name: String,
}

/// The entries of the friends list: the records whose relationship is `FRIEND`, each with
/// its presence (`presences[i]` belongs to `friends[i]`); nothing when an id of such a
/// record is not a number.
pub open spec fn friends_ok(friends: Seq<FriendRecord>, presences: Seq<Option<RichPresence>>, out: Seq<LSXFriend>) -> bool
    decreases friends.len(),
{
    if friends.len() == 0 || presences.len() == 0 {
        out.len() == 0
    } else {
        let f = friends.last();
        if f.relationship@ == "FRIEND"@ {
            out.len() > 0 && friends_ok(friends.drop_last(), presences.drop_last(), out.drop_last())
                && friend_entry_ok(out.last(), f, presences.last())
        } else {
            friends_ok(friends.drop_last(), presences.drop_last(), out)
        }
    }
}

/// Whether every `FRIEND` record has numeric ids.
pub open spec fn friend_ids_parse(friends: Seq<FriendRecord>) -> bool {
    forall|i: int|
        0 <= i < friends.len() && (#[trigger] friends[i]).relationship@ == "FRIEND"@ ==> parse_u64_spec(
            friends[i].id@,
        ) is Some && parse_u64_spec(friends[i].pd@) is Some
}

/// The entry of the friends list for a record and its presence.
pub open spec fn friend_entry_ok(e: LSXFriend, f: FriendRecord, presence: Option<RichPresence>) -> bool {
    &&& parse_u64_spec(f.id@) matches Some(uid) && e.attr_UserId == uid
    &&& e.attr_PersonaId@ == f.pd@
    &&& e.attr_Persona@ == f.unique_name@
    &&& e.attr_AvatarId@ == "user:"@ + f.id@
    &&& e.attr_State == LSXFriendState::Mutual
    &&& match presence {
        Some(p) => e.attr_Presence == lsx_presence_spec(p) && e.attr_RichPresence@ == p.status@
            && e.attr_GamePresence@ == game_text(p),
        None => e.attr_Presence == LSXPresence::Offline && e.attr_RichPresence@.len() == 0
            && e.attr_GamePresence@.len() == 0,
    }
}

/// The friends reply; an error when a friend's id is not a number.
pub fn handle_query_friends_request(friends: &Vec<FriendRecord>, presences: &Vec<Option<RichPresence>>) -> (r:
    Result<LSXResponseType, FriendError>)
    requires
        presences.len() == friends.len(),
    ensures
        friend_ids_parse(friends@) ==> (r matches Ok(LSXResponseType::QueryFriendsResponse(q))
            && friends_ok(friends@, presences@, q.friend@)),
        !friend_ids_parse(friends@) ==> r == Err::<LSXResponseType, FriendError>(FriendError::Parse),
{
    let mut out: Vec<LSXFriend> = Vec::new();
    let mut i: usize = 0;
    proof {
        reveal_strlit("FRIEND");
        assert(friends@.take(0) =~= Seq::<FriendRecord>::empty());
    }
    while i < friends.len()
        invariant
            i <= friends.len(),
            presences.len() == friends.len(),
            friend_ids_parse(friends@.take(i as int)),
            friends_ok(friends@.take(i as int), presences@.take(i as int), out@),
        decreases friends.len() - i,
    {
        let ghost fs = friends@.take(i + 1);
        let ghost ps = presences@.take(i + 1);
        assert(fs.drop_last() =~= friends@.take(i as int));
        assert(ps.drop_last() =~= presences@.take(i as int));
        assert(fs.last() == friends@[i as int]);
        assert(ps.last() == presences@[i as int]);
        let f = &friends[i];
        if crate::text::str_eq(f.relationship.as_str(), "FRIEND") {
            let presence = match &presences[i] {
                Some(p) => Some(p),
                None => None,
            };
            match friend_entry(f.unique_name.as_str(), f.id.as_str(), f.pd.as_str(), presence) {
                Ok(e) => {
                    let ghost before = out@;
                    out.push(e);
                    assert(out@.drop_last() =~= before);
                },
                Err(err) => {
                    proof {
                        assert(!friend_ids_parse(friends@)) by {
                            assert(friends@[i as int] == f);
                        }
                    }
                    return Err(err);
                },
            }
        }
        assert(friend_ids_parse(fs)) by {
            assert forall|j: int| 0 <= j < fs.len() && (#[trigger] fs[j]).relationship@ == "FRIEND"@ implies parse_u64_spec(fs[j].id@) is Some && parse_u64_spec(fs[j].pd@) is Some by {
                if j < i {
                    assert(fs[j] == friends@.take(i as int)[j]);
                }
            }
        }
        i = i + 1;
    }
    assert(friends@.take(i as int) =~= friends@);
    assert(presences@.take(i as int) =~= presences@);
    Ok(LSXResponseType::QueryFriendsResponse(LSXQueryFriendsResponse { friend: out }))
}

/// An entitlement of the user as the service lists it.
pub struct EntitlementRecord {
    pub id: String,
    pub use_count: u32,
    pub version: u16,
    pub product_id: String,
    pub grant_date: String,
    pub entitlement_tag: String,
    pub entitlement_type: String,
    pub termination_date: Option<String>,
}

/// The date that an entitlement reply gives where none is known.
pub const NO_DATE: &'static str = "0000-00-00T00:00:00";

/// The reply entry for an entitlement of a group.
pub open spec fn entitlement_entry_ok(e: LSXEntitlement, r: EntitlementRecord, group: Seq<char>) -> bool {
    &&& parse_u64_spec(r.id@) == Some(e.attr_EntitlementId)
    &&& e.attr_LastModifiedDate@ == NO_DATE@
    &&& e.attr_UseCount == r.use_count
    &&& e.attr_Version == r.version
    &&& e.attr_ItemId@ == r.product_id@
    &&& e.attr_ResourceId@.len() == 0
    &&& e.attr_GrantDate@ == r.grant_date@
    &&& e.attr_Group@ == group
    &&& e.attr_EntitlementTag@ == r.entitlement_tag@
    &&& e.attr_Type@ == r.entitlement_type@
    &&& e.attr_Expiration@ == match r.termination_date {
        Some(d) => d@,
        None => NO_DATE@,
    }
    &&& e.attr_Source@.len() == 0
}

/// Whether every entitlement's id is a number.
pub open spec fn entitlement_ids_parse(records: Seq<EntitlementRecord>) -> bool {
    forall|i: int| 0 <= i < records.len() ==> parse_u64_spec((#[trigger] records[i]).id@) is Some
}

/// The entitlements reply for the group the game asked about, one entry per entitlement
/// that the service listed, in its order; an error when an entitlement id is not a number.
pub fn handle_query_entitlements_request(request: &LSXQueryEntitlements, entitlements: &Vec<EntitlementRecord>) -> (r:
    Result<LSXResponseType, LSXRequestError>)
    ensures
        entitlement_ids_parse(entitlements@) ==> (r matches Ok(LSXResponseType::QueryEntitlementsResponse(q))
            && q.entitlement.len() == entitlements.len() && forall|i: int|
            0 <= i < entitlements.len() ==> entitlement_entry_ok(
                #[trigger] q.entitlement@[i],
                entitlements@[i],
                request.attr_Group@,
            )),
        !entitlement_ids_parse(entitlements@) ==> r == Err::<LSXResponseType, LSXRequestError>(
            LSXRequestError::InvalidId,
        ),
{
    let mut out: Vec<LSXEntitlement> = Vec::new();
    let mut i: usize = 0;
    while i < entitlements.len()
        invariant
            i <= entitlements.len(),
            out.len() == i,
            entitlement_ids_parse(entitlements@.take(i as int)),
            forall|j: int|
                0 <= j < i ==> entitlement_entry_ok(
                    #[trigger] out@[j],
                    entitlements@[j],
                    request.attr_Group@,
                ),
        decreases entitlements.len() - i,
    {
        let e = &entitlements[i];
        let id = match parse_u64(e.id.as_str()) {
            Some(id) => id,
            None => {
                assert(!entitlement_ids_parse(entitlements@)) by {
                    assert(entitlements@[i as int] == e);
                }
                return Err(LSXRequestError::InvalidId);
            },
        };
        let expiration = match &e.termination_date {
            Some(d) => d.clone(),
            None => NO_DATE.to_string(),
        };
        let entry = LSXEntitlement {
            attr_LastModifiedDate: NO_DATE.to_string(),
            attr_EntitlementId: id,
            attr_UseCount: e.use_count,
            attr_Version: e.version,
            attr_ItemId: e.product_id.clone(),
            attr_ResourceId: String::new(),
            attr_GrantDate: e.grant_date.clone(),
            attr_Group: request.attr_Group.clone(),
            attr_EntitlementTag: e.entitlement_tag.clone(),
            attr_Type: e.entitlement_type.clone(),
            attr_Expiration: expiration,
            attr_Source: String::new(),
        };
        out.push(entry);
        assert(entitlement_ids_parse(entitlements@.take(i + 1))) by {
            assert forall|j: int| 0 <= j < i + 1 implies parse_u64_spec(
                (#[trigger] entitlements@.take(i + 1)[j]).id@,
            ) is Some by {
                if j < i {
                    assert(entitlements@.take(i + 1)[j] == entitlements@.take(i as int)[j]);
                }
            }
        }
        i = i + 1;
    }
    assert(entitlements@.take(i as int) =~= entitlements@);
    Ok(LSXResponseType::QueryEntitlementsResponse(LSXQueryEntitlementsResponse { entitlement: out }))
}

/// What setting a game's presence does: the reply, and the presence to publish (status
/// text and offer id), if any. Online-offline launches publish nothing; otherwise a rich
/// presence text is published as the game's name and that text.
pub fn handle_set_presence_request(request: &LSXSetPresence, online_offline: bool, display_name: &str, offer_id: &str) -> (r:
    (LSXResponseType, Option<(String, String)>))
    ensures
        r.0 matches LSXResponseType::ErrorSuccess(e) && e.attr_Code == 0 && e.attr_Description@.len() == 0,
        online_offline ==> r.1 is None,
        !online_offline ==> match request.attr_RichPresence {
            Some(t) => r.1 matches Some((status, id)) && status@ == display_name@ + ": "@ + t@ && id@ == offer_id@,
            None => r.1 is None,
        },
{
    if online_offline {
        return (error_success(), None);
    }
    let publish = match &request.attr_RichPresence {
        Some(t) => Some((presence_status(display_name, t.as_str()), offer_id.to_string())),
        None => None,
    };
    (error_success(), publish)
}

/// The user an avatar image id names: the second `:`-separated piece (`user:<id>`).
pub fn image_user_id(image_id: &str) -> (r: Option<String>)
    ensures
        split_spec(image_id@, ':').len() >= 2 ==> (r matches Some(u) && u@ == split_spec(image_id@, ':')[1]),
        split_spec(image_id@, ':').len() < 2 ==> r is None,
{
    let parts = split_char(image_id, ':');
    assert(views(parts@).len() == parts.len());
    if parts.len() >= 2 {
        assert(views(parts@)[1] == parts@[1]@);
        Some(parts[1].clone())
    } else {
        None
    }
}

/// The image reply: the requested image, found at `resource_path`.
pub fn handle_query_image_request(request: &LSXQueryImage, resource_path: &str) -> (r: LSXResponseType)
    ensures
        r matches LSXResponseType::QueryImageResponse(q) && q.attr_Result == 1 && q.image.len() == 1
            && q.image@[0].attr_ImageId == request.attr_ImageId && q.image@[0].attr_Width
            == request.attr_Width && q.image@[0].attr_Height == request.attr_Height
            && q.image@[0].attr_ResourcePath@ == resource_path@,
{
    let mut images: Vec<LSXImage> = Vec::new();
    images.push(
        LSXImage {
            attr_ImageId: request.attr_ImageId.clone(),
            attr_Width: request.attr_Width,
            attr_Height: request.attr_Height,
            attr_ResourcePath: resource_path.to_string(),
        },
    );
    LSXResponseType::QueryImageResponse(LSXQueryImageResponse { attr_Result: 1, image: images })
}

/// The authorization code reply: the code of the exchange, or `invalid` when it failed.
pub fn handle_auth_code_request(exchange: Option<&str>) -> (r: LSXResponseType)
    ensures
        r matches LSXResponseType::AuthCode(a) && a.attr_value@ == match exchange {
            Some(c) => c@,
            None => "invalid"@,
        },
{
    let code = match exchange {
        Some(c) => c.to_string(),
        None => "invalid".to_string(),
    };
    LSXResponseType::AuthCode(LSXAuthCode { attr_value: code })
}

/// How a license request is answered before asking the service: with the token of
/// `MAXIMA_DENUVO_TOKEN` when it is set, with an empty license for offline launches;
/// otherwise the service is asked.
pub fn license_shortcut(env_token: Option<&str>, mode: &LaunchMode) -> (r: Option<LSXResponseType>)
    ensures
        match env_token {
            Some(t) => r matches Some(LSXResponseType::RequestLicenseResponse(l)) && l.attr_License@ == t@,
            None => match mode {
                LaunchMode::Offline(_) => r matches Some(LSXResponseType::RequestLicenseResponse(l))
                    && l.attr_License@.len() == 0,
                _ => r is None,
            },
        },
{
    match env_token {
        Some(t) => Some(
            LSXResponseType::RequestLicenseResponse(
                LSXRequestLicenseResponse { attr_License: t.to_string() },
            ),
        ),
        None => match mode {
            LaunchMode::Offline(_) => Some(
                LSXResponseType::RequestLicenseResponse(
                    LSXRequestLicenseResponse { attr_License: String::new() },
                ),
            ),
            _ => None,
        },
    }
}

/// The credentials of a license request: the access token for online launches, the
/// persona and password for online-offline ones; none for offline launches.
pub fn license_auth(mode: &LaunchMode, access_token: &str) -> (r: Option<LicenseAuth>)
    ensures
        match mode {
            LaunchMode::Offline(_) => r is None,
            LaunchMode::Online(_) => r matches Some(LicenseAuth::AccessToken(t)) && t@ == access_token@,
            LaunchMode::OnlineOffline(_, persona, password) => r matches Some(LicenseAuth::Direct(p, w))
                && p@ == persona@ && w@ == password@,
        },
{
    match mode {
        LaunchMode::Offline(_) => None,
        LaunchMode::Online(_) => Some(LicenseAuth::AccessToken(access_token.to_string())),
        LaunchMode::OnlineOffline(_, persona, password) => Some(
            LicenseAuth::Direct(persona.clone(), password.clone()),
        ),
    }
}

/// The reply to a license request once the license came: its game token; a license
/// without one is an error.
pub fn handle_license_request(license: &License) -> (r: Result<LSXResponseType, LSXRequestError>)
    ensures
        match license.game_token {
            Some(t) => r matches Ok(LSXResponseType::RequestLicenseResponse(l)) && l.attr_License@ == t@,
            None => r == Err::<LSXResponseType, LSXRequestError>(LSXRequestError::Denuvo),
        },
{
    match &license.game_token {
        Some(t) => Ok(
            LSXResponseType::RequestLicenseResponse(
                LSXRequestLicenseResponse { attr_License: t.clone() },
            ),
        ),
        None => Err(LSXRequestError::Denuvo),
    }
}

/// An optional text, or a default.
pub open spec fn text_or(t: Option<Seq<char>>, default: Seq<char>) -> Seq<char> {
    match t {
        Some(v) => v,
        None => default,
    }
}

fn text_or_exec(t: Option<&String>, default: &str) -> (r: String)
    ensures
        r@ == text_or(
            match t {
                Some(v) => Some(v@),
                None => None,
            },
            default@,
        ),
{
    match t {
        Some(v) => v.clone(),
        None => default.to_string(),
    }
}

/// The reply describing the game being played (`display_name` is `None` when there is
/// none): its name, the version of its first download and that download's live date, and
/// the installed version (when it could be read); `Unknown Game`, `0` and a zero date
/// otherwise. The game is always a purchased, released, up-to-date full game.
pub fn handle_all_game_info_request(
    display_name: Option<&str>,
    first_download: Option<&ServiceAvailableBuild>,
    installed_version: Option<&str>,
) -> (r: LSXResponseType)
    ensures
        r matches LSXResponseType::GetAllGameInfoResponse(g) && g.attr_FullGamePurchased
            && g.attr_FullGameReleased && g.attr_MaxGroupSize == 16 && g.attr_Languages@ == LANGUAGES@
            && g.attr_Expiration@ == "0000-00-00T00:00:00"@ && g.attr_UpToDate && !g.attr_HasExpiration
            && g.attr_EntitlementSource@ == "STEAM"@ && !g.attr_FreeTrial && g.attr_InstalledLanguage@
            == "en_US"@ && g.attr_SystemTime@ == "2023-06-22T04:00:00"@ && match display_name {
            None => g.attr_DisplayName@ == "Unknown Game"@ && g.attr_AvailableVersion@ == "0"@
                && g.attr_InstalledVersion@ == "0"@ && g.attr_FullGameReleaseDate@
                == "0000-00-00T00:00:00"@,
            Some(n) => g.attr_DisplayName@ == n@ && g.attr_AvailableVersion@ == (match first_download {
                Some(d) => text_or(
                    match d.game_version {
                        Some(v) => Some(v@),
                        None => None,
                    },
                    "0"@,
                ),
                None => "0"@,
            }) && g.attr_InstalledVersion@ == text_or(
                match installed_version {
                    Some(v) => Some(v@),
                    None => None,
                },
                "0"@,
            ) && g.attr_FullGameReleaseDate@ == (match first_download {
                Some(d) => text_or(
                    match d.build_live_date {
                        Some(v) => Some(v@),
                        None => None,
                    },
                    "0000-00-00T00:00:00"@,
                ),
                None => "0000-00-00T00:00:00"@,
            }),
        },
{
    let (name, available, installed, release) = match display_name {
        Some(n) => {
            let available = match first_download {
                Some(d) => text_or_exec(d.game_version.as_ref(), "0"),
                None => "0".to_string(),
            };
            let installed = match installed_version {
                Some(v) => v.to_string(),
                None => "0".to_string(),
            };
            let release = match first_download {
                Some(d) => text_or_exec(d.build_live_date.as_ref(), "0000-00-00T00:00:00"),
                None => "0000-00-00T00:00:00".to_string(),
            };
            (n.to_string(), available, installed, release)
        },
        None => (
            "Unknown Game".to_string(),
            "0".to_string(),
            "0".to_string(),
            "0000-00-00T00:00:00".to_string(),
        ),
    };
    LSXResponseType::GetAllGameInfoResponse(
        LSXGetAllGameInfoResponse {
            attr_FullGamePurchased: true,
            attr_FullGameReleased: true,
            attr_InstalledVersion: installed,
            attr_Languages: LANGUAGES.to_string(),
            attr_Expiration: "0000-00-00T00:00:00".to_string(),
            attr_UpToDate: true,
            attr_HasExpiration: false,
            attr_EntitlementSource: "STEAM".to_string(),
            attr_AvailableVersion: available,
            attr_MaxGroupSize: 16,
            attr_DisplayName: name,
            attr_FreeTrial: false,
            attr_InstalledLanguage: "en_US".to_string(),
            attr_FullGameReleaseDate: release,
            attr_SystemTime: "2023-06-22T04:00:00".to_string(),
        },
    )
}

/// Setting the downloader's utilization gets no reply: the launcher does not throttle.
pub fn handle_set_downloader_util_request(request: &crate::lsx::LSXSetDownloaderUtilization) -> (r: Option<
    LSXResponseType,
>)
    ensures
        r is None,
{
    None
}

} // verus!
