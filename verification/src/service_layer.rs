//! Data of EA's service aggregation layer (GraphQL) that the launcher reads: owned game
//! products, legacy offers and available builds.

use crate::search::{first_index, lemma_first_index_found, lemma_first_index_none};
use crate::text::{concat, hex_encode, hex_lower, replace_all, replace_spec, str_eq};
use vstd::prelude::*;

verus! {

/// A persisted GraphQL query, identified by the SHA-256 of its text.
pub struct PersistedQuery {
    pub version: u8,
    pub sha256_hash: String,
}

pub struct ServiceExtensions {
    pub persisted_query: PersistedQuery,
}

/// The extensions sent with an operation: its persisted query, version 1, named by the
/// SHA-256 of its text in lower-case hexadecimal.
pub fn persisted_extensions(operation: &ServiceLayerGraphQLRequest) -> (r: ServiceExtensions)
    ensures
        r.persisted_query.version == 1,
        r.persisted_query.sha256_hash@ == hex_lower(operation.hash@),
{
    ServiceExtensions {
        persisted_query: PersistedQuery { version: 1, sha256_hash: hex_encode(&operation.hash) },
    }
}

/// The `Authorization` header of a request: the access token as a bearer token, when the
/// user has one.
pub fn authorization_header(access_token: Option<&str>) -> (r: Option<String>)
    ensures
        match access_token {
            Some(t) => r matches Some(h) && h@ == "Bearer "@ + t@,
            None => r is None,
        },
{
    match access_token {
        Some(t) => Some(concat("Bearer ", t)),
        None => None,
    }
}

/// What the `errors` member of a GraphQL response body says: nothing when the body is not
/// JSON; `Some(None)` when it has no `errors` member; otherwise `Some(Some(m))`, with `m`
/// the `message` text of the first error when it has one.
pub uninterp spec fn graphql_errors_of(body: Seq<char>) -> Option<Option<Option<Seq<char>>>>;

/// `serde_json::from_str::<Value>(body)`, then the response's `errors` member and the
/// `message` string of its first element; named by `graphql_errors_of`.
#[verifier::external_body]
fn parse_graphql_errors(body: &str) -> (r: Option<Option<Option<String>>>)
    ensures
        match graphql_errors_of(body@) {
            None => r is None,
            Some(None) => r == Some(None::<Option<String>>),
            Some(Some(m)) => r matches Some(Some(x)) && opt_text(x) == m,
        },
{
    match serde_json::from_str::<serde_json::Value>(body) {
        Ok(v) => Some(v.get("errors").map(|e| e.get(0).and_then(|x| x.get("message")).and_then(|m| m.as_str()).map(|m| m.to_string()))),
        Err(_) => None,
    }
}

/// The text of an optional string.
pub open spec fn opt_text(o: Option<String>) -> Option<Seq<char>> {
    match o {
        Some(s) => Some(s@),
        None => None,
    }
}

/// Why a service-layer request failed.
#[derive(Debug, Clone, PartialEq)]
pub enum ServiceRequestError {
    /// The service answered with a status other than 200; the body it sent.
    Status(String),
    /// The body is not JSON.
    Json,
    /// The response lists errors; the message of the first, when it has one.
    GraphQl(Option<String>),
}

/// What a service-layer response comes to before its data is read: an error for a status
/// other than 200 (carrying the body), for a body that is not JSON, and for a response
/// that lists errors (with the first error's message); otherwise the data may be taken.
pub fn service_response_outcome(status: u16, body: &str) -> (r: Result<(), ServiceRequestError>)
    ensures
        status != 200 ==> (r matches Err(ServiceRequestError::Status(b)) && b@ == body@),
        status == 200 ==> match graphql_errors_of(body@) {
            None => r == Err::<(), ServiceRequestError>(ServiceRequestError::Json),
            Some(None) => r is Ok,
            Some(Some(m)) => r matches Err(ServiceRequestError::GraphQl(x)) && opt_text(x) == m,
        },
{
    if status != 200 {
        return Err(ServiceRequestError::Status(body.to_string()));
    }
    match parse_graphql_errors(body) {
        None => Err(ServiceRequestError::Json),
        Some(None) => Ok(()),
        Some(Some(message)) => Err(ServiceRequestError::GraphQl(message)),
    }
}

/// Which endpoint a request goes to.
#[derive(Debug, Clone, Copy, PartialEq, Eq, Structural)]
pub enum ServiceLayerRequestType {
    ServiceAggregationLayer,
    ContentfulProxy,
}

/// A GraphQL operation of the service layer.
pub struct ServiceLayerGraphQLRequest {
    pub query: &'static str,
    pub operation: &'static str,
    pub key: &'static str,
    pub hash: [u8; 32],
    pub request_type: ServiceLayerRequestType,
}

#[derive(Debug, Clone, Copy, PartialEq, Eq, Structural)]
pub enum ServiceGameProductType {
    DigitalFullGame,
    DigitalExtraContent,
    PackagedFullGame,
    PackagedExtraContent,
    MicroContent,
    ExpansionPack,
    BundlePack,
    BaseGame,
    PrereleaseGame,
}

#[derive(Debug, Clone, Copy, PartialEq, Eq, Structural)]
pub enum ServiceStorefront {
    Ea,
    Steam,
    Epic,
}

#[derive(Debug, Clone, Copy, PartialEq, Eq, Structural)]
pub enum ServicePlatform {
    Pc,
    MacPc,
}

#[derive(Debug, Clone, Copy, PartialEq, Eq, Structural)]
pub enum ServiceOwnershipMethod {
    Unknown,
    Association,
    Purchase,
    Redemption,
    GiftReceipt,
    GiftPurchase,
    EntitlementGrant,
    DirectEntitlement,
    PreOrderPurchase,
    Vault,
    XgpVault,
    Steam,
    SteamVault,
    SteamSubscription,
    Epic,
    EpicVault,
}

#[derive(Debug, Clone, Copy, PartialEq, Eq, Structural)]
pub enum ServiceOwnershipStatus {
    Active,
    Disabled,
}

#[derive(Debug, Clone, Copy, PartialEq, Eq, Structural)]
pub enum ServiceTrialType {
    PlayFirstTrial,
    OpenTrial,
    UngatedTrial,
}

pub struct ServiceTrialDetails {
    pub trial_type: ServiceTrialType,
}

pub struct ServiceGameProductUserTrial {
    pub trial_time_remaining_seconds: Option<u32>,
}

pub struct ServiceGameProductUser {
    pub ownership_methods: Vec<ServiceOwnershipMethod>,
    pub initial_entitlement_date: String,
    pub entitlement_id: Option<String>,
    pub game_product_user_trial: Option<ServiceGameProductUserTrial>,
    pub status: ServiceOwnershipStatus,
}

pub struct ServicePurchaseStatus {
    pub repurchasable: bool,
}

/// A game as the service layer describes it.
pub struct ServiceGame {
    pub id: String,
    pub slug: Option<String>,
    pub base_game_slug: Option<String>,
    pub game_type: Option<ServiceGameProductType>,
    pub title: Option<String>,
}

pub struct ServiceGameProduct {
    pub id: String,
    pub name: String,
    pub downloadable: bool,
    pub game_slug: String,
    pub trial_details: Option<ServiceTrialDetails>,
    pub base_item: ServiceGame,
    pub game_product_user: ServiceGameProductUser,
    pub purchase_status: ServicePurchaseStatus,
}

impl ServiceGameProduct {
    /// The product name without line breaks.
    pub fn name(&self) -> (r: String)
        ensures
            r@ == replace_spec(self.name@, seq!['\n'], Seq::empty()),
    {
        let newline = "\n";
        let empty = "";
        proof {
            reveal_strlit("\n");
            reveal_strlit("");
            assert(newline@ =~= seq!['\n']);
            assert(empty@ =~= Seq::<char>::empty());
        }
        replace_all(self.name.as_str(), newline, empty)
    }
}

pub struct ServiceUserGameProduct {
    pub id: String,
    pub origin_offer_id: String,
    pub status: ServiceOwnershipStatus,
    pub product: ServiceGameProduct,
}

#[derive(Debug, Clone, Copy, PartialEq, Eq, Structural)]
pub enum ServiceDownloadType {
    Staged,
    Live,
    Unspecified,
}

impl ServiceDownloadType {
    pub open spec fn name_spec(self) -> Seq<char> {
        match self {
            ServiceDownloadType::Staged => "Staged"@,
            ServiceDownloadType::Live => "Live"@,
            ServiceDownloadType::Unspecified => "None"@,
        }
    }

    pub fn to_string(&self) -> (r: String)
        ensures
            r@ == self.name_spec(),
    {
        match self {
            ServiceDownloadType::Staged => "Staged".to_owned(),
            ServiceDownloadType::Live => "Live".to_owned(),
            ServiceDownloadType::Unspecified => "None".to_owned(),
        }
    }
}

pub struct ServiceAvailableBuild {
    pub build_id: String,
    pub download_type: Option<ServiceDownloadType>,
    pub game_version: Option<String>,
    pub build_release_version: Option<String>,
    pub build_live_date: Option<String>,
}

/// How a build is shown: its game version (or `UnkVer`), then `/` and its download type
/// when known, then ` - ` and its live date when known.
pub open spec fn build_label(b: ServiceAvailableBuild) -> Seq<char> {
    let version = match b.game_version {
        Some(v) => v@,
        None => "UnkVer"@,
    };
    let with_type = match b.download_type {
        Some(t) => version + "/"@ + t.name_spec(),
        None => version,
    };
    match b.build_live_date {
        Some(d) => with_type + " - "@ + d@,
        None => with_type,
    }
}

impl ServiceAvailableBuild {
    pub fn to_string(&self) -> (r: String)
        ensures
            r@ == build_label(*self),
    {
        let mut s = match &self.game_version {
            Some(v) => v.clone(),
            None => "UnkVer".to_owned(),
        };
        if let Some(t) = &self.download_type {
            let part = concat("/", t.to_string().as_str());
            let ghost before = s@;
            s = concat(s.as_str(), part.as_str());
            assert(s@ =~= before + "/"@ + t.name_spec());
        }
        if let Some(d) = &self.build_live_date {
            let part = concat(" - ", d.as_str());
            let ghost before = s@;
            s = concat(s.as_str(), part.as_str());
            assert(s@ =~= before + " - "@ + d@);
        }
        s
    }
}

/// Builds whose download type, absent meaning `None`, is `Live`.
pub open spec fn is_live_build() -> spec_fn(ServiceAvailableBuild) -> bool {
    |b: ServiceAvailableBuild| b.download_type == Some(ServiceDownloadType::Live)
}

/// Builds of the given game version.
pub open spec fn has_game_version(id: Seq<char>) -> spec_fn(ServiceAvailableBuild) -> bool {
    |b: ServiceAvailableBuild| b.game_version matches Some(v) && v@ == id
}

pub struct ServiceAvailableBuilds {
    pub builds: Vec<ServiceAvailableBuild>,
}

impl ServiceAvailableBuilds {
    /// The first live build.
    pub fn live_build(&self) -> (r: Option<&ServiceAvailableBuild>)
        ensures
            match first_index(self.builds@, is_live_build()) {
                Some(i) => r == Some(&self.builds@[i]),
                None => r is None,
            },
    {
        let ghost p = is_live_build();
        let mut i: usize = 0;
        while i < self.builds.len()
            invariant
                i <= self.builds@.len(),
                p == is_live_build(),
                forall|j: int| 0 <= j < i ==> !p(#[trigger] self.builds@[j]),
            decreases self.builds@.len() - i,
        {
            let live = match self.builds[i].download_type {
                Some(t) => t == ServiceDownloadType::Live,
                None => false,
            };
            if live {
                proof {
                    lemma_first_index_found(self.builds@, p, i as int);
                }
                return Some(&self.builds[i]);
            }
            i = i + 1;
        }
        proof {
            lemma_first_index_none(self.builds@, p);
        }
        None
    }

    /// The first build of game version `id`.
    pub fn build(&self, id: &str) -> (r: Option<&ServiceAvailableBuild>)
        ensures
            match first_index(self.builds@, has_game_version(id@)) {
                Some(i) => r == Some(&self.builds@[i]),
                None => r is None,
            },
    {
        let ghost p = has_game_version(id@);
        let mut i: usize = 0;
        while i < self.builds.len()
            invariant
                i <= self.builds@.len(),
                p == has_game_version(id@),
                forall|j: int| 0 <= j < i ==> !p(#[trigger] self.builds@[j]),
            decreases self.builds@.len() - i,
        {
            let found = match &self.builds[i].game_version {
                Some(v) => str_eq(v.as_str(), id),
                None => false,
            };
            if found {
                proof {
                    lemma_first_index_found(self.builds@, p, i as int);
                }
                return Some(&self.builds[i]);
            }
            i = i + 1;
        }
        proof {
            lemma_first_index_none(self.builds@, p);
        }
        None
    }
}

pub struct ServiceLegacyOffer {
    pub offer_id: String,
    pub content_id: String,
    pub primary_master_title_id: String,
    pub game_launcher_url: Option<String>,
    pub game_launcher_url_client_id: Option<String>,
    pub multiplayer_id: Option<String>,
    pub execute_path_override: Option<String>,
    pub installation_directory: Option<String>,
    pub install_check_override: Option<String>,
    pub monitor_play: Option<bool>,
    pub display_name: String,
    pub display_type: String,
    pub dip_manifest_relative_path: Option<String>,
    pub is_downloadable: bool,
    pub cloud_save_configuration_override: Option<String>,
}

/// A copy of an optional string.
fn clone_opt(o: &Option<String>) -> (r: Option<String>)
    ensures
        r == *o,
{
    match o {
        Some(s) => Some(s.clone()),
        None => None,
    }
}

impl Clone for ServiceLegacyOffer {
    fn clone(&self) -> (r: Self)
        ensures
            r == *self,
    {
        ServiceLegacyOffer {
            offer_id: self.offer_id.clone(),
            content_id: self.content_id.clone(),
            primary_master_title_id: self.primary_master_title_id.clone(),
            game_launcher_url: clone_opt(&self.game_launcher_url),
            game_launcher_url_client_id: clone_opt(&self.game_launcher_url_client_id),
            multiplayer_id: clone_opt(&self.multiplayer_id),
            execute_path_override: clone_opt(&self.execute_path_override),
            installation_directory: clone_opt(&self.installation_directory),
            install_check_override: clone_opt(&self.install_check_override),
            monitor_play: self.monitor_play,
            display_name: self.display_name.clone(),
            display_type: self.display_type.clone(),
            dip_manifest_relative_path: clone_opt(&self.dip_manifest_relative_path),
            is_downloadable: self.is_downloadable,
            cloud_save_configuration_override: clone_opt(&self.cloud_save_configuration_override),
        }
    }
}

impl ServiceLegacyOffer {
    /// Whether the offer carries a non-empty cloud save configuration.
    pub fn has_cloud_save(&self) -> (r: bool)
        ensures
            r <==> (self.cloud_save_configuration_override matches Some(c) && c@.len() > 0),
    {
        match &self.cloud_save_configuration_override {
            Some(c) => !c.as_str().is_empty(),
            None => false,
        }
    }
}

} // verus!
