#![allow(non_snake_case)]
//! The LSX protocol between a game and the launcher: its messages, the handshake that
//! sets up encryption, and the replies the launcher gives.

use crate::crypto::{
    ecb_encrypt, check_challenge_response, decrypted_text, lsx_key, make_challenge_response,
    make_lsx_key, try_check_challenge_response, try_make_challenge_response, try_simple_decrypt,
    try_simple_encrypt, CRYPTO_KEY, MAX_CIPHER_INPUT,
};
use crate::maxima::{parse_u64, parse_u64_spec, MaximaSetting};
use crate::pattern::{find_all_matches, regex_find_all};
use crate::rtm::{BasicPresence, RichPresence};
use crate::text::{concat, hex_lower, replace_all, replace_spec, str_eq, trim, trim_spec};
use vstd::prelude::*;
use vstd::string::StrSliceExecFns;
use vstd::utf8::{decode_utf8, encode_utf8, valid_utf8};

verus! {

/// The challenge the launcher sends when a game connects.
#[derive(Debug, Clone, PartialEq)]
pub struct LSXChallenge {
    pub attr_build: String,
    pub attr_key: String,
    pub attr_version: String,
}

/// A game's answer to the challenge.
#[derive(Debug, Clone, PartialEq)]
pub struct LSXChallengeResponse {
    pub attr_response: String,
    pub attr_key: String,
    pub attr_version: String,
    pub content_id: String,
    pub title: String,
    pub multiplayer_id: String,
    pub language: String,
    pub version: String,
}

#[derive(Debug, Clone, PartialEq)]
pub struct LSXGetConfig {
    pub attr_version: String,
}

#[derive(Debug, Clone, PartialEq)]
pub struct LSXGetProfile {
    pub attr_index: u8,
    pub attr_version: String,
}

#[derive(Debug, Clone, PartialEq)]
pub struct LSXGetSetting {
    pub attr_SettingId: MaximaSetting,
}

#[derive(Debug, Clone, PartialEq)]
pub struct LSXGetInternetConnectedState {
    pub attr_version: String,
}

#[derive(Debug, Clone, PartialEq)]
pub struct LSXRequestLicense {
    pub attr_UserId: u64,
    pub attr_RequestTicket: String,
    pub attr_TicketEngine: String,
    pub attr_version: String,
}

#[derive(Debug, Clone, PartialEq)]
pub struct LSXGetGameInfo {
    pub attr_GameInfoId: LSXGameInfoId,
    pub attr_version: String,
}

#[derive(Debug, Clone, PartialEq)]
pub struct LSXGetAllGameInfo {
    pub attr_version: String,
}

#[derive(Debug, Clone, PartialEq)]
pub struct LSXIsProgressiveInstallationAvailable {
    pub attr_ItemId: String,
    pub attr_version: String,
}

#[derive(Debug, Clone, PartialEq)]
pub struct LSXAreChunksInstalled {
    pub attr_ItemId: String,
    pub attr_version: String,
    pub chunk_ids: Vec<u32>,
}

#[derive(Debug, Clone, PartialEq)]
pub struct LSXGetAuthCode {
    pub attr_UserId: Option<String>,
    pub attr_ClientId: String,
    pub attr_Scope: Option<String>,
    pub attr_AppendAuthSource: Option<String>,
    pub attr_version: String,
}

#[derive(Debug, Clone, PartialEq)]
pub struct LSXGetPresence {
    pub attr_UserId: u64,
}

#[derive(Debug, Clone, PartialEq)]
pub struct LSXSetPresence {
    pub attr_UserId: u64,
    pub attr_Presence: LSXPresence,
    pub attr_RichPresence: Option<String>,
    pub attr_GamePresence: Option<String>,
    pub attr_SessionId: Option<String>,
}

#[derive(Debug, Clone, PartialEq)]
pub struct LSXQueryPresence {
    pub attr_UserId: u64,
    pub Users: Vec<u64>,
}

#[derive(Debug, Clone, PartialEq)]
pub struct LSXQueryFriends {
    pub attr_UserId: u64,
}

#[derive(Debug, Clone, PartialEq)]
pub struct LSXQueryEntitlements {
    pub attr_UserId: u64,
    pub attr_Group: String,
}

#[derive(Debug, Clone, PartialEq)]
pub struct LSXQueryImage {
    pub attr_ImageId: String,
    pub attr_Width: u16,
    pub attr_Height: u16,
}

#[derive(Debug, Clone, PartialEq)]
pub struct LSXGetVoipStatus {
}

/// The share of bandwidth the downloader may use; `attr_Utilization` holds the bits of the 32-bit float that the game sends.
#[derive(Debug, Clone, PartialEq)]
pub struct LSXSetDownloaderUtilization {
    pub attr_Utilization: u32,
}

#[derive(Debug, Clone, PartialEq)]
pub struct LSXShowIGOWindow {
    pub attr_WindowId: LSXIGOWindow,
    pub attr_Show: Option<bool>,
    pub attr_Flags: Option<i32>,
    pub attr_ContentId: String,
    pub target_id: u64,
}

#[derive(Debug, Clone, PartialEq)]
pub struct LSXErrorSuccess {
    pub attr_Code: i64,
    pub attr_Description: String,
}

#[derive(Debug, Clone, PartialEq)]
pub struct LSXChallengeAccepted {
    pub attr_response: String,
}

/// A service the launcher offers, by name and facility.
#[derive(Debug, Clone, PartialEq)]
pub struct LSXService {
    pub attr_Name: String,
    pub attr_Facility: String,
}

#[derive(Debug, Clone, PartialEq)]
pub struct LSXGetConfigResponse {
    pub service: Vec<LSXService>,
}

#[derive(Debug, Clone, PartialEq)]
pub struct LSXGetSettingResponse {
    pub attr_Setting: String,
}

#[derive(Debug, Clone, PartialEq)]
pub struct LSXGetProfileResponse {
    pub attr_Persona: String,
    pub attr_SubscriberLevel: u8,
    pub attr_CommerceCurrency: String,
    pub attr_IsTrialSubscriber: bool,
    pub attr_Country: String,
    pub attr_UserId: u64,
    pub attr_GeoCountry: String,
    pub attr_AvatarId: String,
    pub attr_IsSubscriber: bool,
    pub attr_IsSteamSubscriber: bool,
    pub attr_PersonaId: u64,
    pub attr_IsUnderAge: bool,
    pub attr_UserIndex: u8,
}

#[derive(Debug, Clone, PartialEq)]
pub struct LSXRequestLicenseResponse {
    pub attr_License: String,
}

#[derive(Debug, Clone, PartialEq)]
pub struct LSXGetGameInfoResponse {
    pub attr_GameInfo: String,
}

#[derive(Debug, Clone, PartialEq)]
pub struct LSXGetAllGameInfoResponse {
    pub attr_FullGamePurchased: bool,
    pub attr_FullGameReleased: bool,
    pub attr_InstalledVersion: String,
    pub attr_Languages: String,
    pub attr_Expiration: String,
    pub attr_UpToDate: bool,
    pub attr_HasExpiration: bool,
    pub attr_EntitlementSource: String,
    pub attr_AvailableVersion: String,
    pub attr_MaxGroupSize: u32,
    pub attr_DisplayName: String,
    pub attr_FreeTrial: bool,
    pub attr_InstalledLanguage: String,
    pub attr_FullGameReleaseDate: String,
    pub attr_SystemTime: String,
}

#[derive(Debug, Clone, PartialEq)]
pub struct LSXInternetConnectedState {
    pub attr_connected: u8,
}

#[derive(Debug, Clone, PartialEq)]
pub struct LSXIsProgressiveInstallationAvailableResponse {
    pub attr_ItemId: String,
    pub attr_Available: bool,
}

#[derive(Debug, Clone, PartialEq)]
pub struct LSXAreChunksInstalledResponse {
    pub attr_ItemId: String,
    pub attr_Installed: bool,
    pub chunk_ids: Vec<u32>,
}

#[derive(Debug, Clone, PartialEq)]
pub struct LSXAuthCode {
    pub attr_value: String,
}

#[derive(Debug, Clone, PartialEq)]
pub struct LSXGetPresenceResponse {
    pub attr_UserId: u64,
    pub attr_Presence: LSXPresence,
    pub attr_Title: Option<String>,
    pub attr_TitleId: Option<String>,
    pub attr_MultiplayerId: Option<String>,
    pub attr_RichPresence: Option<String>,
    pub attr_GamePresence: Option<String>,
    pub attr_SessionId: Option<String>,
    pub attr_Group: Option<String>,
    pub attr_GroupId: Option<String>,
}

#[derive(Debug, Clone, PartialEq)]
pub struct LSXFriend {
    pub attr_TitleId: String,
    pub attr_MultiplayerId: String,
    pub attr_Persona: String,
    pub attr_RichPresence: String,
    pub attr_GamePresence: String,
    pub attr_Title: String,
    pub attr_UserId: u64,
    pub attr_PersonaId: String,
    pub attr_AvatarId: String,
    pub attr_Group: String,
    pub attr_GroupId: String,
    pub attr_Presence: LSXPresence,
    pub attr_State: LSXFriendState,
}

#[derive(Debug, Clone, PartialEq)]
pub struct LSXQueryPresenceResponse {
    pub friend: Vec<LSXFriend>,
}

#[derive(Debug, Clone, PartialEq)]
pub struct LSXQueryFriendsResponse {
    pub friend: Vec<LSXFriend>,
}

/// An entitlement of the user; `attr_Type` is the entitlement type as the service names it.
#[derive(Debug, Clone, PartialEq)]
pub struct LSXEntitlement {
    pub attr_LastModifiedDate: String,
    pub attr_EntitlementId: u64,
    pub attr_UseCount: u32,
    pub attr_Version: u16,
    pub attr_ItemId: String,
    pub attr_ResourceId: String,
    pub attr_GrantDate: String,
    pub attr_Group: String,
    pub attr_EntitlementTag: String,
    pub attr_Type: String,
    pub attr_Expiration: String,
    pub attr_Source: String,
}

#[derive(Debug, Clone, PartialEq)]
pub struct LSXQueryEntitlementsResponse {
    pub entitlement: Vec<LSXEntitlement>,
}

#[derive(Debug, Clone, PartialEq)]
pub struct LSXImage {
    pub attr_ImageId: String,
    pub attr_Width: u16,
    pub attr_Height: u16,
    pub attr_ResourcePath: String,
}

#[derive(Debug, Clone, PartialEq)]
pub struct LSXQueryImageResponse {
    pub attr_Result: i32,
    pub image: Vec<LSXImage>,
}

#[derive(Debug, Clone, PartialEq)]
pub struct LSXGetVoipStatusResponse {
    pub attr_Available: bool,
    pub attr_Active: bool,
}
/// What a game asks about itself.
#[derive(Debug, Clone, Copy, PartialEq, Eq, Structural)]
pub enum LSXGameInfoId {
    FreeTrial,
    Languages,
    InstalledLanguage,
}

/// The in-game overlay windows a game can ask for.
#[derive(Debug, Clone, Copy, PartialEq, Eq, Structural)]
pub enum LSXIGOWindow {
    Login,
    Profile,
    Recent,
    Feedback,
    Friends,
    FriendRequest,
    Chat,
    ComposeChat,
    Invite,
    Achievements,
    Store,
    CodeRedemption,
    Checkout,
    Blocked,
    Browser,
    FindFriends,
    ChangeAvatar,
    Gamedetails,
    Broadcast,
    Upsell,
}

/// A user's presence.
#[derive(Debug, Clone, Copy, PartialEq, Eq, Structural)]
pub enum LSXPresence {
    Unknown,
    Offline,
    Online,
    Ingame,
    Busy,
    Idle,
    Joinable,
    JoinableInviteOnly,
}

/// How a user stands to the local user.
#[derive(Debug, Clone, Copy, PartialEq, Eq, Structural)]
pub enum LSXFriendState {
    Unknown,
    NoRelation,
    Mutual,
    Invited,
    Declined,
    Request,
}

/// An LSX document: one message.
#[derive(Debug, Clone, PartialEq)]
pub struct LSX {
    pub value: LSXMessageType,
}

#[derive(Debug, Clone, PartialEq)]
pub enum LSXMessageType {
    Event(LSXEvent),
    Request(LSXRequest),
    Response(LSXResponse),
}

#[derive(Debug, Clone, PartialEq)]
pub struct LSXEvent {
    pub sender: String,
    pub value: LSXEventType,
}

#[derive(Debug, Clone, PartialEq)]
pub struct LSXRequest {
    pub recipient: String,
    pub id: String,
    pub value: LSXRequestType,
}

#[derive(Debug, Clone, PartialEq)]
pub struct LSXResponse {
    pub sender: String,
    pub id: String,
    pub value: LSXResponseType,
}

#[derive(Debug, Clone, PartialEq)]
pub enum LSXEventType {
    Challenge(LSXChallenge),
}

#[derive(Debug, Clone, PartialEq)]
pub enum LSXRequestType {
    ChallengeResponse(LSXChallengeResponse),
    GetConfig(LSXGetConfig),
    GetProfile(LSXGetProfile),
    GetSetting(LSXGetSetting),
    RequestLicense(LSXRequestLicense),
    GetGameInfo(LSXGetGameInfo),
    GetAllGameInfo(LSXGetAllGameInfo),
    GetInternetConnectedState(LSXGetInternetConnectedState),
    IsProgressiveInstallationAvailable(LSXIsProgressiveInstallationAvailable),
    AreChunksInstalled(LSXAreChunksInstalled),
    GetAuthCode(LSXGetAuthCode),
    GetPresence(LSXGetPresence),
    SetPresence(LSXSetPresence),
    QueryPresence(LSXQueryPresence),
    QueryFriends(LSXQueryFriends),
    QueryEntitlements(LSXQueryEntitlements),
    QueryImage(LSXQueryImage),
    GetVoipStatus(LSXGetVoipStatus),
    ShowIGOWindow(LSXShowIGOWindow),
    SetDownloaderUtilization(LSXSetDownloaderUtilization),
}

#[derive(Debug, Clone, PartialEq)]
pub enum LSXResponseType {
    ErrorSuccess(LSXErrorSuccess),
    ChallengeAccepted(LSXChallengeAccepted),
    GetConfigResponse(LSXGetConfigResponse),
    GetProfileResponse(LSXGetProfileResponse),
    GetSettingResponse(LSXGetSettingResponse),
    RequestLicenseResponse(LSXRequestLicenseResponse),
    GetGameInfoResponse(LSXGetGameInfoResponse),
    GetAllGameInfoResponse(LSXGetAllGameInfoResponse),
    InternetConnectedState(LSXInternetConnectedState),
    IsProgressiveInstallationAvailableResponse(LSXIsProgressiveInstallationAvailableResponse),
    AreChunksInstalledResponse(LSXAreChunksInstalledResponse),
    AuthCode(LSXAuthCode),
    GetPresenceResponse(LSXGetPresenceResponse),
    QueryPresenceResponse(LSXQueryPresenceResponse),
    QueryFriendsResponse(LSXQueryFriendsResponse),
    QueryEntitlementsResponse(LSXQueryEntitlementsResponse),
    QueryImageResponse(LSXQueryImageResponse),
    GetVoipStatusResponse(LSXGetVoipStatusResponse),
}

pub fn create_lsx_message(message_type: LSXMessageType) -> (r: LSX)
    ensures
        r.value == message_type,
{
    LSX { value: message_type }
}

impl LSXService {
    pub fn new(name: &str, facility: &str) -> (r: Self)
        ensures
            r.attr_Name@ == name@,
            r.attr_Facility@ == facility@,
    {
        LSXService { attr_Name: name.to_string(), attr_Facility: facility.to_string() }
    }
}

/// Why a request got no reply.
#[derive(Debug, Clone, PartialEq)]
pub enum LSXRequestError {
    /// The game's answer to the challenge was wrong.
    InvalidChallengeResponse,
    /// The game asked for an encryption version the launcher does not know.
    UnknownEncryption(String),
    /// The license carried no game token.
    Denuvo,
    /// An id that the service sent is not a number.
    InvalidId,
}

/// Who the launcher says it is.
pub const CORE_SENDER: &'static str = "EALS";

/// The build the challenge names.
pub const CHALLENGE_BUILD: &'static str = "release";

/// The version the challenge names.
pub const CHALLENGE_VERSION: &'static str = "10,5,64,37936";

/// The challenge event for a connection's challenge text.
pub fn challenge_message(challenge: &str) -> (r: LSX)
    ensures
        r.value matches LSXMessageType::Event(e) && e.sender@ == CORE_SENDER@ && (e.value matches LSXEventType::Challenge(c) && c.attr_build@ == CHALLENGE_BUILD@
            && c.attr_key@ == challenge@ && c.attr_version@ == CHALLENGE_VERSION@),
{
    create_lsx_message(
        LSXMessageType::Event(
            LSXEvent {
                sender: CORE_SENDER.to_string(),
                value: LSXEventType::Challenge(
                    LSXChallenge {
                        attr_build: CHALLENGE_BUILD.to_string(),
                        attr_key: challenge.to_string(),
                        attr_version: CHALLENGE_VERSION.to_string(),
                    },
                ),
            },
        ),
    )
}

/// The reply to a request: the handler's response, addressed from the request's recipient
/// with the request's id; no reply when the handler gave none.
pub fn respond(request: LSXRequest, reply: Option<LSXResponseType>) -> (r: Option<LSXMessageType>)
    ensures
        match reply {
            Some(v) => r == Some(
                LSXMessageType::Response(
                    LSXResponse { sender: request.recipient, id: request.id, value: v },
                ),
            ),
            None => r is None,
        },
{
    match reply {
        Some(value) => Some(
            LSXMessageType::Response(
                LSXResponse { sender: request.recipient, id: request.id, value },
            ),
        ),
        None => None,
    }
}

/// The value the launcher gives for a setting.
pub open spec fn setting_value(s: MaximaSetting) -> Seq<char> {
    match s {
        MaximaSetting::IsIgoEnabled => "false"@,
        MaximaSetting::IsIgoAvailable => "false"@,
        MaximaSetting::Environment => "production"@,
    }
}

pub fn handle_settings_request(request: &LSXGetSetting) -> (r: LSXResponseType)
    ensures
        r matches LSXResponseType::GetSettingResponse(s) && s.attr_Setting@ == setting_value(
            request.attr_SettingId,
        ),
{
    let setting = match request.attr_SettingId {
        MaximaSetting::IsIgoEnabled => "false".to_string(),
        MaximaSetting::IsIgoAvailable => "false".to_string(),
        MaximaSetting::Environment => "production".to_string(),
    };
    LSXResponseType::GetSettingResponse(LSXGetSettingResponse { attr_Setting: setting })
}

/// The game is always told it is online.
pub fn handle_connectivity_request(request: &LSXGetInternetConnectedState) -> (r: LSXResponseType)
    ensures
        r matches LSXResponseType::InternetConnectedState(s) && s.attr_connected == 1,
{
    LSXResponseType::InternetConnectedState(LSXInternetConnectedState { attr_connected: 1 })
}

/// The languages the launcher says a game has.
pub const LANGUAGES: &'static str = "ar_SA,de_DE,en_US,es_ES,es_MX,fr_FR,it_IT,ja_JP,ko_KR,pl_PL,pt_BR,ru_RU,zh_CN,zh_TW";

/// The value the launcher gives for a piece of game information.
pub open spec fn game_info_value(id: LSXGameInfoId) -> Seq<char> {
    match id {
        LSXGameInfoId::FreeTrial => "false"@,
        LSXGameInfoId::Languages => LANGUAGES@,
        LSXGameInfoId::InstalledLanguage => "en_US"@,
    }
}

pub fn handle_game_info_request(request: &LSXGetGameInfo) -> (r: LSXResponseType)
    ensures
        r matches LSXResponseType::GetGameInfoResponse(g) && g.attr_GameInfo@ == game_info_value(
            request.attr_GameInfoId,
        ),
        request.attr_GameInfoId == LSXGameInfoId::FreeTrial ==> (r matches LSXResponseType::GetGameInfoResponse(g)
            && g.attr_GameInfo@ == bool_text(false)),
{
    let game_info = match request.attr_GameInfoId {
        LSXGameInfoId::FreeTrial => "false".to_string(),
        LSXGameInfoId::Languages => LANGUAGES.to_string(),
        LSXGameInfoId::InstalledLanguage => "en_US".to_string(),
    };
    LSXResponseType::GetGameInfoResponse(LSXGetGameInfoResponse { attr_GameInfo: game_info })
}

/// The text of a flag in a game-info reply.
pub open spec fn bool_text(b: bool) -> Seq<char> {
    if b {
        "true"@
    } else {
        "false"@
    }
}

/// A single piece of game information agrees with the all-game-info reply, which tells
/// the game it is no free trial, lists the launcher's languages and has `en_US`
/// installed: the free-trial answer is that reply's flag as text, and the languages and
/// installed language are the same texts.
pub proof fn lemma_game_info_agrees(all: LSXGetAllGameInfoResponse)
    requires
        !all.attr_FreeTrial,
        all.attr_Languages@ == LANGUAGES@,
        all.attr_InstalledLanguage@ == "en_US"@,
    ensures
        game_info_value(LSXGameInfoId::FreeTrial) == bool_text(all.attr_FreeTrial),
        game_info_value(LSXGameInfoId::Languages) == all.attr_Languages@,
        game_info_value(LSXGameInfoId::InstalledLanguage) == all.attr_InstalledLanguage@,
{
}

/// The item the progressive-install replies name.
pub const PROGRESSIVE_ITEM: &'static str = "Origin.OFR.50.0001456";

/// Progressive installation is never available.
pub fn handle_pi_availability_request(request: &LSXIsProgressiveInstallationAvailable) -> (r:
    LSXResponseType)
    ensures
        r matches LSXResponseType::IsProgressiveInstallationAvailableResponse(p) && !p.attr_Available
            && p.attr_ItemId@ == PROGRESSIVE_ITEM@,
{
    LSXResponseType::IsProgressiveInstallationAvailableResponse(
        LSXIsProgressiveInstallationAvailableResponse {
            attr_ItemId: PROGRESSIVE_ITEM.to_string(),
            attr_Available: false,
        },
    )
}

/// Every chunk asked about is installed.
pub fn handle_pi_installed_chunks_request(request: LSXAreChunksInstalled) -> (r: LSXResponseType)
    ensures
        r matches LSXResponseType::AreChunksInstalledResponse(p) && p.attr_Installed
            && p.attr_ItemId@ == PROGRESSIVE_ITEM@ && p.chunk_ids == request.chunk_ids,
{
    LSXResponseType::AreChunksInstalledResponse(
        LSXAreChunksInstalledResponse {
            attr_ItemId: PROGRESSIVE_ITEM.to_string(),
            attr_Installed: true,
            chunk_ids: request.chunk_ids,
        },
    )
}

/// The services the launcher offers, as (name, facility).
pub open spec fn config_service_table() -> Seq<(Seq<char>, Seq<char>)> {
    seq![
        ("EbisuSDK"@, "SDK"@),
        ("EbisuSDK"@, "PROFILE"@),
        ("XMPP"@, "PRESENCE"@),
        ("XMPP"@, "FRIENDS"@),
        ("Commerce"@, "COMMERCE"@),
        ("EbisuSDK"@, "RECENTPLAYER"@),
        ("EbisuSDK"@, "IGO"@),
        ("EbisuSDK"@, "MISC"@),
        ("EALS"@, "LOGIN"@),
        ("EbisuSDK"@, "UTILITY"@),
        ("XMPP"@, "XMPP"@),
        ("XMPP"@, "CHAT"@),
        ("EbisuSDK"@, "IGO_EVENT"@),
        ("EALS"@, "EALS_EVENTS"@),
        ("EbisuSDK"@, "LOGIN_EVENT"@),
        ("XMPP"@, "INVITE_EVENT"@),
        ("EbisuSDK"@, "PROFILE_EVENT"@),
        ("XMPP"@, "PRESENCE_EVENT"@),
        ("XMPP"@, "FRIENDS_EVENT"@),
        ("Commerce"@, "COMMERCE_EVENT"@),
        ("XMPP"@, "CHAT_EVENT"@),
        ("EbisuSDK"@, "DOWNLOAD_EVENT"@),
        ("EbisuSDK"@, "PERMISSION"@),
        ("EbisuSDK"@, "RESOURCES"@),
        ("EbisuSDK"@, "BLOCKED_USERS"@),
        ("EbisuSDK"@, "BLOCKED_USER_EVENT"@),
        ("EbisuSDK"@, "GET_USERID"@),
        ("EbisuSDK"@, "ONLINE_STATUS_EVENT"@),
        ("EbisuSDK"@, "ACHIEVEMENT"@),
        ("EbisuSDK"@, "ACHIEVEMENT_EVENT"@),
        ("EbisuSDK"@, "BROADCAST_EVENT"@),
        ("PI"@, "PROGRESSIVE_INSTALLATION"@),
        ("PI"@, "PROGRESSIVE_INSTALLATION_EVENT"@),
        ("EbisuSDK"@, "CONTENT"@),
    ]
}

/// The services of the configuration reply, in the order of `config_service_table`.
pub fn config_services() -> (r: Vec<LSXService>)
    ensures
        r.len() == config_service_table().len(),
        forall|i: int|
            0 <= i < r.len() ==> (#[trigger] r@[i]).attr_Name@ == config_service_table()[i].0
                && r@[i].attr_Facility@ == config_service_table()[i].1,
{
    let mut v: Vec<LSXService> = Vec::new();
    v.push(LSXService::new("EbisuSDK", "SDK"));
    v.push(LSXService::new("EbisuSDK", "PROFILE"));
    v.push(LSXService::new("XMPP", "PRESENCE"));
    v.push(LSXService::new("XMPP", "FRIENDS"));
    v.push(LSXService::new("Commerce", "COMMERCE"));
    v.push(LSXService::new("EbisuSDK", "RECENTPLAYER"));
    v.push(LSXService::new("EbisuSDK", "IGO"));
    v.push(LSXService::new("EbisuSDK", "MISC"));
    v.push(LSXService::new("EALS", "LOGIN"));
    v.push(LSXService::new("EbisuSDK", "UTILITY"));
    v.push(LSXService::new("XMPP", "XMPP"));
    v.push(LSXService::new("XMPP", "CHAT"));
    v.push(LSXService::new("EbisuSDK", "IGO_EVENT"));
    v.push(LSXService::new("EALS", "EALS_EVENTS"));
    v.push(LSXService::new("EbisuSDK", "LOGIN_EVENT"));
    v.push(LSXService::new("XMPP", "INVITE_EVENT"));
    v.push(LSXService::new("EbisuSDK", "PROFILE_EVENT"));
    v.push(LSXService::new("XMPP", "PRESENCE_EVENT"));
    v.push(LSXService::new("XMPP", "FRIENDS_EVENT"));
    v.push(LSXService::new("Commerce", "COMMERCE_EVENT"));
    v.push(LSXService::new("XMPP", "CHAT_EVENT"));
    v.push(LSXService::new("EbisuSDK", "DOWNLOAD_EVENT"));
    v.push(LSXService::new("EbisuSDK", "PERMISSION"));
    v.push(LSXService::new("EbisuSDK", "RESOURCES"));
    v.push(LSXService::new("EbisuSDK", "BLOCKED_USERS"));
    v.push(LSXService::new("EbisuSDK", "BLOCKED_USER_EVENT"));
    v.push(LSXService::new("EbisuSDK", "GET_USERID"));
    v.push(LSXService::new("EbisuSDK", "ONLINE_STATUS_EVENT"));
    v.push(LSXService::new("EbisuSDK", "ACHIEVEMENT"));
    v.push(LSXService::new("EbisuSDK", "ACHIEVEMENT_EVENT"));
    v.push(LSXService::new("EbisuSDK", "BROADCAST_EVENT"));
    v.push(LSXService::new("PI", "PROGRESSIVE_INSTALLATION"));
    v.push(LSXService::new("PI", "PROGRESSIVE_INSTALLATION_EVENT"));
    v.push(LSXService::new("EbisuSDK", "CONTENT"));
    v
}

pub fn handle_config_request(request: &LSXGetConfig) -> (r: LSXResponseType)
    ensures
        r matches LSXResponseType::GetConfigResponse(c) && c.service.len()
            == config_service_table().len() && forall|i: int|
            0 <= i < c.service.len() ==> (#[trigger] c.service@[i]).attr_Name@
                == config_service_table()[i].0 && c.service@[i].attr_Facility@
                == config_service_table()[i].1,
{
    LSXResponseType::GetConfigResponse(LSXGetConfigResponse { service: config_services() })
}

/// Whether the messages of a connection are encrypted, and with which key.
#[derive(Debug, Clone, Copy, PartialEq, Eq)]
pub enum EncryptionState {
    Disabled,
    /// Encryption starts after the current message has been answered.
    Ready([u8; 16]),
    Enabled([u8; 16]),
}

/// The encryption of a connection once the current message has been answered: a key
/// waiting to be used is then in use.
pub open spec fn after_message(e: EncryptionState) -> EncryptionState {
    match e {
        EncryptionState::Ready(k) => EncryptionState::Enabled(k),
        other => other,
    }
}

impl EncryptionState {
    /// Encryption starts with the message after the current one.
    pub fn enable_encryption(&mut self, key: [u8; 16])
        ensures
            *final(self) == EncryptionState::Ready(key),
    {
        *self = EncryptionState::Ready(key);
    }

    /// A message has been answered: a key waiting to be used is now in use.
    pub fn message_done(&mut self)
        ensures
            *final(self) == after_message(*old(self)),
    {
        if let EncryptionState::Ready(k) = *self {
            *self = EncryptionState::Enabled(k);
        }
    }
}


/// The key a game's challenge key is answered with: its encryption under the fixed LSX
/// key, in hexadecimal.
pub open spec fn accept_key_text(key: Seq<char>) -> Seq<char> {
    hex_lower(ecb_encrypt(CRYPTO_KEY@, encode_utf8(key))->0)
}

/// The seed of the session key for an encryption version: 0 for version 2, the first two
/// characters of the answer key for version 3; none for other versions.
pub open spec fn challenge_seed(version: Seq<char>, accept: Seq<char>) -> Option<u16> {
    if version == "2"@ {
        Some(0u16)
    } else if version == "3"@ {
        Some((((accept[0] as u8) as u16) * 256 + ((accept[1] as u8) as u16)) as u16)
    } else {
        None
    }
}

/// The inputs on which the handshake can be computed: the game's answer decrypts to text,
/// and when it matches, its key encrypts, with at least one byte for version 3.
pub open spec fn challenge_computable(challenge: Seq<char>, m: LSXChallengeResponse) -> bool {
    &&& decrypted_text(m.attr_response@, CRYPTO_KEY@) is Some
    &&& decrypted_text(m.attr_response@, CRYPTO_KEY@) == Some(challenge) ==> {
        &&& ecb_encrypt(CRYPTO_KEY@, encode_utf8(m.attr_key@)) is Some
        &&& m.attr_version@ == "3"@ ==> accept_key_text(m.attr_key@).len() >= 2
    }
}

/// The outcome of the handshake: refused when the game's answer is not the challenge,
/// refused for an unknown version; otherwise accepted with the answer key, and the
/// session key of the version's seed becomes ready.
pub open spec fn challenge_outcome(challenge: Seq<char>, m: LSXChallengeResponse, r: Result<LSXResponseType, LSXRequestError>, before: EncryptionState, after: EncryptionState) -> bool {
    if decrypted_text(m.attr_response@, CRYPTO_KEY@) != Some(challenge) {
        r == Err::<LSXResponseType, LSXRequestError>(LSXRequestError::InvalidChallengeResponse)
            && after == before
    } else {
        match challenge_seed(m.attr_version@, accept_key_text(m.attr_key@)) {
            Some(seed) => (r matches Ok(LSXResponseType::ChallengeAccepted(a)) && a.attr_response@
                == accept_key_text(m.attr_key@)) && (after matches EncryptionState::Ready(k) && k@
                == lsx_key(seed)),
            None => (r matches Err(LSXRequestError::UnknownEncryption(v)) && v@
                == m.attr_version@) && after == before,
        }
    }
}

/// The handshake: once an accepted challenge response has been answered, the messages of
/// the connection are encrypted with the session key of the version's seed; a refused one
/// leaves the encryption as it was.
pub proof fn lemma_handshake_encryption(
    challenge: Seq<char>,
    m: LSXChallengeResponse,
    r: Result<LSXResponseType, LSXRequestError>,
    before: EncryptionState,
    after: EncryptionState,
)
    requires
        challenge_outcome(challenge, m, r, before, after),
    ensures
        r is Ok ==> (after_message(after) matches EncryptionState::Enabled(k) && k@ == lsx_key(
            challenge_seed(m.attr_version@, accept_key_text(m.attr_key@))->0,
        )),
        r is Err ==> after == before,
{
}

/// Answers a game's challenge response and, when accepted, readies the session key.
pub fn handle_challenge_response(
    challenge: &str,
    message: &LSXChallengeResponse,
    encryption: &mut EncryptionState,
) -> (r: Result<LSXResponseType, LSXRequestError>)
    requires
        challenge_computable(challenge@, *message),
    ensures
        challenge_outcome(challenge@, *message, r, *old(encryption), *final(encryption)),
{
    let valid = check_challenge_response(message.attr_response.as_str(), challenge);
    if !valid {
        return Err(LSXRequestError::InvalidChallengeResponse);
    }
    let accept_key = make_challenge_response(message.attr_key.as_str());
    let version = message.attr_version.as_str();
    let seed: u16 = if str_eq(version, "2") {
        0
    } else if str_eq(version, "3") {
        let b0 = accept_key.as_str().get_char(0) as u8;
        let b1 = accept_key.as_str().get_char(1) as u8;
        (b0 as u16) * 256 + (b1 as u16)
    } else {
        return Err(LSXRequestError::UnknownEncryption(message.attr_version.clone()));
    };
    let key = make_lsx_key(seed);
    encryption.enable_encryption(key);
    Ok(LSXResponseType::ChallengeAccepted(LSXChallengeAccepted { attr_response: accept_key }))
}

/// Answers like `handle_challenge_response`, or gives nothing (leaving the encryption
/// as it was) where the answer does not decrypt, the key does not encrypt, or the answer
/// key is too short for version 3.
pub fn try_handle_challenge_response(
    challenge: &str,
    message: &LSXChallengeResponse,
    encryption: &mut EncryptionState,
) -> (r: Option<Result<LSXResponseType, LSXRequestError>>)
    ensures
        r is Some <==> challenge_computable(challenge@, *message),
        match r {
            Some(res) => challenge_outcome(challenge@, *message, res, *old(encryption), *final(encryption)),
            None => *final(encryption) == *old(encryption),
        },
{
    let valid = match try_check_challenge_response(message.attr_response.as_str(), challenge) {
        Some(v) => v,
        None => return None,
    };
    if valid {
        let accept = match try_make_challenge_response(message.attr_key.as_str()) {
            Some(a) => a,
            None => return None,
        };
        if str_eq(message.attr_version.as_str(), "3") && accept.as_str().unicode_len() < 2 {
            return None;
        }
    }
    Some(handle_challenge_response(challenge, message, encryption))
}

/// A message as sent: its text (encrypted and hex-encoded when encryption is on), then a
/// NUL. Nothing when encryption fails.
pub open spec fn frame_spec(xml: Seq<char>, encryption: EncryptionState) -> Option<Seq<char>> {
    match encryption {
        EncryptionState::Enabled(key) => match ecb_encrypt(key@, encode_utf8(xml)) {
            Some(c) => Some(hex_lower(c) + seq!['\0']),
            None => None,
        },
        _ => Some(xml + seq!['\0']),
    }
}

/// What the other side reads of a frame: the text of its UTF-8 bytes up to the final NUL,
/// as `incoming_spec` reads received bytes.
pub open spec fn read_back(frame: Seq<char>, encryption: EncryptionState) -> Option<Seq<char>> {
    incoming_spec(encode_utf8(frame.drop_last()), encryption)
}

/// The bytes to send for a serialised message. Read back with the same encryption, the
/// frame gives the message again: trimmed of surrounding white space when unencrypted, and
/// when encrypted wherever its ciphertext is short enough for the cipher to decrypt.
pub fn outgoing_frame(xml: &str, encryption: &EncryptionState) -> (r: Option<String>)
    ensures
        match frame_spec(xml@, *encryption) {
            Some(f) => r matches Some(s) && s@ == f,
            None => r is None,
        },
        r matches Some(s) ==> match encryption {
            EncryptionState::Enabled(_) => encode_utf8(xml@).len() + 16 <= MAX_CIPHER_INPUT
                ==> read_back(s@, *encryption) == Some(xml@),
            _ => read_back(s@, *encryption) == Some(trim_spec(xml@)),
        },
{
    proof {
        reveal_strlit("\0");
        assert("\0"@ =~= seq!['\0']);
    }
    match encryption {
        EncryptionState::Enabled(key) => match try_simple_encrypt(xml.as_bytes(), key) {
            Some(c) => {
                let f = concat(c.as_str(), "\0");
                proof {
                    assert(f@.drop_last() =~= c@);
                    broadcast use vstd::utf8::encode_utf8_valid_utf8, vstd::utf8::encode_utf8_decode_utf8;
                }
                Some(f)
            },
            None => None,
        },
        _ => {
            let f = concat(xml, "\0");
            proof {
                assert(f@.drop_last() =~= xml@);
                broadcast use vstd::utf8::encode_utf8_valid_utf8, vstd::utf8::encode_utf8_decode_utf8;
            }
            Some(f)
        },
    }
}

/// The text of received bytes, lossily decoded from UTF-8 (invalid sequences become
/// U+FFFD).
pub uninterp spec fn utf8_lossy(bytes: Seq<u8>) -> Seq<char>;

/// `String::from_utf8_lossy`: the bytes decoded as UTF-8 with each invalid sequence
/// replaced by U+FFFD (named by `utf8_lossy`); valid UTF-8 decodes exactly.
#[verifier::external_body]
fn string_from_utf8_lossy(bytes: &[u8]) -> (r: String)
    ensures
        r@ == utf8_lossy(bytes@),
        valid_utf8(bytes@) ==> r@ == decode_utf8(bytes@),
{
    String::from_utf8_lossy(bytes).into_owned()
}

/// The text of a received message (without its final byte): decrypted when encryption is
/// on, otherwise decoded and trimmed. Nothing when it does not decrypt to text.
pub open spec fn incoming_spec(data: Seq<u8>, encryption: EncryptionState) -> Option<Seq<char>> {
    match encryption {
        EncryptionState::Enabled(key) => if valid_utf8(data) {
            decrypted_text(decode_utf8(data), key@)
        } else {
            None
        },
        _ => if valid_utf8(data) {
            Some(trim_spec(decode_utf8(data)))
        } else {
            Some(trim_spec(utf8_lossy(data)))
        },
    }
}

pub fn incoming_text(data: &[u8], encryption: &EncryptionState) -> (r: Option<String>)
    ensures
        match incoming_spec(data@, *encryption) {
            Some(t) => r matches Some(s) && s@ == t,
            None => r is None,
        },
{
    match encryption {
        EncryptionState::Enabled(key) => try_simple_decrypt(data, key),
        _ => {
            let text = string_from_utf8_lossy(data);
            Some(trim(text.as_str()).to_string())
        },
    }
}

/// The pattern of one LSX document in received text.
pub const LSX_PATTERN: &'static str = "<LSX>.*?</LSX>";

/// The LSX documents in received text, each with any `version="" ` removed.
pub fn lsx_documents(text: &str) -> (r: Option<Vec<String>>)
    ensures
        match regex_find_all(LSX_PATTERN@, text@) {
            Some(ms) => r matches Some(v) && v.len() == ms.len() && forall|i: int|
                0 <= i < v.len() ==> (#[trigger] v@[i])@ == replace_spec(
                    ms[i],
                    "version=\"\" "@,
                    Seq::empty(),
                ),
            None => r is None,
        },
{
    let found = match find_all_matches(LSX_PATTERN, text) {
        Some(f) => f,
        None => return None,
    };
    let ghost ms = regex_find_all(LSX_PATTERN@, text@)->0;
    let pattern = "version=\"\" ";
    let empty = "";
    proof {
        reveal_strlit("version=\"\" ");
        reveal_strlit("");
        assert(pattern@.len() == 11);
        assert(empty@ =~= Seq::<char>::empty());
    }
    let mut out: Vec<String> = Vec::new();
    let mut i: usize = 0;
    while i < found.len()
        invariant
            i <= found.len(),
            found.len() == ms.len(),
            pattern@.len() > 0,
            pattern@ == "version=\"\" "@,
            empty@ == Seq::<char>::empty(),
            forall|j: int| 0 <= j < found.len() ==> (#[trigger] found@[j])@ == ms[j],
            out.len() == i,
            forall|j: int|
                0 <= j < i ==> (#[trigger] out@[j])@ == replace_spec(ms[j], pattern@, Seq::empty()),
        decreases found.len() - i,
    {
        out.push(replace_all(found[i].as_str(), pattern, empty));
        i = i + 1;
    }
    Some(out)
}


/// The presence a game is told of for a service presence: in game when a game is named,
/// otherwise the basic state (do-not-disturb is busy, away is idle).
pub open spec fn lsx_presence_spec(p: RichPresence) -> LSXPresence {
    if p.game matches Some(g) && g@.len() > 0 {
        LSXPresence::Ingame
    } else {
        match p.basic {
            BasicPresence::Unknown => LSXPresence::Unknown,
            BasicPresence::Offline => LSXPresence::Offline,
            BasicPresence::Dnd => LSXPresence::Busy,
            BasicPresence::Away => LSXPresence::Idle,
            BasicPresence::Online => LSXPresence::Online,
        }
    }
}

pub fn lsx_presence(p: &RichPresence) -> (r: LSXPresence)
    ensures
        r == lsx_presence_spec(*p),
{
    let in_game = match &p.game {
        Some(g) => !g.as_str().is_empty(),
        None => false,
    };
    if in_game {
        return LSXPresence::Ingame;
    }
    match p.basic {
        BasicPresence::Unknown => LSXPresence::Unknown,
        BasicPresence::Offline => LSXPresence::Offline,
        BasicPresence::Dnd => LSXPresence::Busy,
        BasicPresence::Away => LSXPresence::Idle,
        BasicPresence::Online => LSXPresence::Online,
    }
}

/// The game text of a presence: its game, or empty.
pub open spec fn game_text(p: RichPresence) -> Seq<char> {
    match p.game {
        Some(g) => g@,
        None => Seq::empty(),
    }
}

fn game_text_exec(p: &RichPresence) -> (r: String)
    ensures
        r@ == game_text(*p),
{
    match &p.game {
        Some(g) => g.clone(),
        None => String::new(),
    }
}

/// The entry of a presence query for a user whose presence is known: in game, with the
/// status and game of the presence and placeholders elsewhere.
pub fn presence_friend(user: u64, presence: &RichPresence) -> (r: LSXFriend)
    ensures
        r.attr_UserId == user,
        r.attr_Persona@ == "------"@,
        r.attr_RichPresence@ == presence.status@,
        r.attr_GamePresence@ == game_text(*presence),
        r.attr_PersonaId@ == "0"@,
        r.attr_Presence == LSXPresence::Ingame,
        r.attr_State == LSXFriendState::NoRelation,
        r.attr_TitleId@.len() == 0 && r.attr_MultiplayerId@.len() == 0 && r.attr_Title@.len() == 0
            && r.attr_AvatarId@.len() == 0 && r.attr_Group@.len() == 0 && r.attr_GroupId@.len() == 0,
{
    LSXFriend {
        attr_TitleId: String::new(),
        attr_MultiplayerId: String::new(),
        attr_Persona: "------".to_string(),
        attr_RichPresence: presence.status.clone(),
        attr_GamePresence: game_text_exec(presence),
        attr_Title: String::new(),
        attr_UserId: user,
        attr_PersonaId: "0".to_string(),
        attr_AvatarId: String::new(),
        attr_Group: String::new(),
        attr_GroupId: String::new(),
        attr_Presence: LSXPresence::Ingame,
        attr_State: LSXFriendState::NoRelation,
    }
}

/// Why a friend cannot be listed.
#[derive(Debug, Clone, Copy, PartialEq, Eq, Structural)]
pub enum FriendError {
    /// An id is not a number.
    Parse,
}

/// The entry of the friends list for a friend (by unique name, user id and persona id),
/// with the presence the service reported (offline when none): mutual, with the presence's
/// state, status and game, and the avatar `user:<id>`.
pub fn friend_entry(unique_name: &str, id: &str, pd: &str, presence: Option<&RichPresence>) -> (r:
    Result<LSXFriend, FriendError>)
    ensures
        match (parse_u64_spec(id@), parse_u64_spec(pd@)) {
            (Some(uid), Some(pid)) => r matches Ok(f) && f.attr_UserId == uid && f.attr_PersonaId@
                == pd@ && f.attr_Persona@ == unique_name@ && f.attr_AvatarId@ == "user:"@ + id@
                && f.attr_State == LSXFriendState::Mutual && match presence {
                Some(p) => f.attr_Presence == lsx_presence_spec(*p) && f.attr_RichPresence@
                    == p.status@ && f.attr_GamePresence@ == game_text(*p),
                None => f.attr_Presence == LSXPresence::Offline && f.attr_RichPresence@.len() == 0
                    && f.attr_GamePresence@.len() == 0,
            },
            _ => r == Err::<LSXFriend, FriendError>(FriendError::Parse),
        },
{
    let user_id = match parse_u64(id) {
        Some(u) => u,
        None => return Err(FriendError::Parse),
    };
    if parse_u64(pd).is_none() {
        return Err(FriendError::Parse);
    }
    let (state, status, game) = match presence {
        Some(p) => (lsx_presence(p), p.status.clone(), game_text_exec(p)),
        None => (LSXPresence::Offline, String::new(), String::new()),
    };
    Ok(
        LSXFriend {
            attr_TitleId: String::new(),
            attr_MultiplayerId: String::new(),
            attr_Persona: unique_name.to_string(),
            attr_RichPresence: status,
            attr_GamePresence: game,
            attr_Title: String::new(),
            attr_UserId: user_id,
            attr_PersonaId: pd.to_string(),
            attr_AvatarId: concat("user:", id),
            attr_Group: String::new(),
            attr_GroupId: String::new(),
            attr_Presence: state,
            attr_State: LSXFriendState::Mutual,
        },
    )
}

/// The presence the launcher reports of the local user.
pub fn handle_presence_request(request: &LSXGetPresence) -> (r: LSXResponseType)
    ensures
        r matches LSXResponseType::GetPresenceResponse(p) && p.attr_UserId == 1005663144213
            && p.attr_Presence == LSXPresence::Ingame && p.attr_Title is None && p.attr_TitleId is None
            && p.attr_MultiplayerId is None && p.attr_RichPresence is None && p.attr_GamePresence is None
            && p.attr_SessionId is None && p.attr_Group is None && p.attr_GroupId is None,
{
    LSXResponseType::GetPresenceResponse(
        LSXGetPresenceResponse {
            attr_UserId: 1005663144213,
            attr_Presence: LSXPresence::Ingame,
            attr_Title: None,
            attr_TitleId: None,
            attr_MultiplayerId: None,
            attr_RichPresence: None,
            attr_GamePresence: None,
            attr_SessionId: None,
            attr_Group: None,
            attr_GroupId: None,
        },
    )
}

/// The status text set for a game's rich presence: the game's name and the presence.
pub fn presence_status(display_name: &str, presence: &str) -> (r: String)
    ensures
        r@ == display_name@ + ": "@ + presence@,
{
    let a = concat(display_name, ": ");
    concat(a.as_str(), presence)
}

/// The empty success answer.
pub fn error_success() -> (r: LSXResponseType)
    ensures
        r matches LSXResponseType::ErrorSuccess(e) && e.attr_Code == 0 && e.attr_Description@.len() == 0,
{
    LSXResponseType::ErrorSuccess(LSXErrorSuccess { attr_Code: 0, attr_Description: String::new() })
}
} // verus!
