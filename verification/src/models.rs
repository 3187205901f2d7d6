use vstd::prelude::*;

verus! {

/// A single owned title as reported by the upstream catalogue service.
/// Identity is the `appid`; `name` is a display attribute only.
#[derive(Debug)]
pub struct Game {
    pub appid: u64,
    pub name: String,
}

impl Clone for Game {
    fn clone(&self) -> (r: Game)
        ensures
            r == *self,
    {
        Game { appid: self.appid, name: self.name.clone() }
    }
}

impl PartialEq for Game {
    fn eq(&self, other: &Game) -> (r: bool) {
        self.appid == other.appid && self.name == other.name
    }
}

impl vstd::std_specs::cmp::PartialEqSpecImpl for Game {
    open spec fn obeys_eq_spec() -> bool {
        true
    }

    open spec fn eq_spec(&self, other: &Game) -> bool {
        self.appid == other.appid && self.name@ == other.name@
    }
}

/// A raw friend-list edge: the other account's id as the upstream
/// reports it, a string-encoded unsigned integer.
#[derive(Debug)]
pub struct Friend {
    pub steamid: String,
}

/// The resolvable identity record used by the identity resolver.
#[derive(Debug)]
pub struct UserSummary {
    pub steamid: String,
    pub personaname: String,
    pub realname: Option<String>,
}

impl Clone for UserSummary {
    fn clone(&self) -> (r: UserSummary)
        ensures
            r == *self,
    {
        UserSummary {
            steamid: self.steamid.clone(),
            personaname: self.personaname.clone(),
            realname: match &self.realname {
                Option::Some(n) => Option::Some(n.clone()),
                Option::None => Option::None,
            },
        }
    }
}

/// Arguments of a player-summaries query: the account ids to describe.
#[derive(Debug)]
pub struct GetUserSummariesRequest {
    pub ids: Vec<u64>,
}

/// Arguments of a single-account query (owned games, friend list).
#[derive(Debug)]
pub struct GetUserDetailsRequest {
    pub id: u64,
}

/// Per-title catalogue metadata, keyed by the requested appid.
#[derive(Debug)]
pub struct GetGameInfoResponse {
    pub games: Vec<(u64, GameInfo)>,
}

/// Catalogue metadata for one title; `data` is absent for delisted or
/// region-restricted titles.
#[derive(Debug)]
pub struct GameInfo {
    pub data: Option<GameData>,
}

/// The catalogue fields this library reads for one title.
#[derive(Debug)]
pub struct GameData {
    pub categories: Vec<PlayStyleCategories>,
    pub pc_requirements: Option<PcRequirements>,
    pub name: String,
    pub steam_appid: u64,
}

/// Well-known category tags by their upstream numeric id.
#[derive(Debug)]
pub enum PlayStyle {
    OnlineCoop,
}

impl PlayStyle {
    /// The upstream numeric id of this category tag.
    pub fn category_id(&self) -> (r: u8)
        ensures
            *self is OnlineCoop ==> r == 38,
    {
        match self {
            PlayStyle::OnlineCoop => 38,
        }
    }
}

/// One category tag of a title.
#[derive(Debug)]
pub struct PlayStyleCategories {
    pub description: String,
    pub id: u8,
}

/// Optional hardware-requirement text of a title.
#[derive(Debug)]
pub struct PcRequirements {
    pub recommended: Option<String>,
}

/// The upstream's listing of its own available endpoints.
#[derive(Debug)]
pub struct GetAvailableEndpointsResponse {
    pub apilist: ApiList,
}

/// The interface list inside the endpoint listing.
#[derive(Debug)]
pub struct ApiList {
    pub interfaces: Vec<SteamEndpoint>,
}

/// One upstream interface and its methods.
#[derive(Debug)]
pub struct SteamEndpoint {
    pub name: String,
    pub methods: Vec<SteamMethod>,
}

/// One method of an upstream interface.
#[derive(Debug)]
pub struct SteamMethod {
    pub name: String,
    pub version: i32,
    pub httpmethod: String,
    pub parameters: Vec<SteamMethodParameter>,
}

/// One declared parameter of an upstream method.
#[derive(Debug)]
pub struct SteamMethodParameter {
    pub name: String,
    pub parameter_type: String,
    pub optional: bool,
}

} // verus!
