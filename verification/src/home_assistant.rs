//! What the client of the lighting actuator decides: paths, headers and the
//! meaning of status codes. Requests themselves are the caller's.

use vstd::prelude::*;
use vstd::string::StringExecFns;

verus! {

pub const DEFAULT_PORT: u16 = 8123;

pub const BASE_URL: &'static str = "/api/";

pub const URL_CONFIG: &'static str = "/api/config";

pub const URL_EVENTS: &'static str = "/api/events";

pub const URL_STATES: &'static str = "/api/states";

pub const URL_SERVICES: &'static str = "/api/services";

pub const HTTP_HEADER_HA_AUTH: &'static str = "X-HA-access";

/// The status code of a request that was carried out.
pub const STATUS_OK: u16 = 200;

/// The status code of a request that was not let in.
pub const STATUS_UNAUTHORIZED: u16 = 401;

/// How the actuator's interface answered.
#[derive(Clone, Copy, Debug, PartialEq, Eq, Structural)]
pub enum ApiStatus {
    Okay,
    InvalidPassword,
    CannotConnect,
    Unknown,
}

impl ApiStatus {
    /// The status that a status code stands for.
    pub open spec fn of_code(code: u16) -> ApiStatus {
        if code == STATUS_OK {
            ApiStatus::Okay
        } else if code == STATUS_UNAUTHORIZED {
            ApiStatus::InvalidPassword
        } else {
            ApiStatus::Unknown
        }
    }

    /// Reads the status code of the answer to a status request.
    pub fn from_status_code(code: u16) -> (r: ApiStatus)
        ensures
            r == Self::of_code(code),
    {
        if code == STATUS_OK {
            ApiStatus::Okay
        } else if code == STATUS_UNAUTHORIZED {
            ApiStatus::InvalidPassword
        } else {
            ApiStatus::Unknown
        }
    }
}

/// Reads the status code of the answer to a request that changes something:
/// only 200 is success, any other code is handed back as the error.
pub fn check_response(code: u16) -> (r: Result<(), u16>)
    ensures
        code == STATUS_OK ==> r is Ok,
        code != STATUS_OK ==> r == Err::<(), u16>(code),
{
    if code == STATUS_OK {
        Ok(())
    } else {
        Err(code)
    }
}

/// Where the interface is and the token that lets a client in.
pub struct HomeAssistantConfig {
    base_url: String,
    token: String,
}

impl HomeAssistantConfig {
    pub closed spec fn base_url_text(&self) -> Seq<char> {
        self.base_url@
    }

    pub closed spec fn token_text(&self) -> Seq<char> {
        self.token@
    }

    pub fn new(base_url: String, token: String) -> (r: Self)
        ensures
            r.base_url_text() == base_url@,
            r.token_text() == token@,
    {
        Self { base_url, token }
    }

    pub fn base_url(&self) -> (r: &String)
        ensures
            r@ == self.base_url_text(),
    {
        &self.base_url
    }

    pub fn token(&self) -> (r: &String)
        ensures
            r@ == self.token_text(),
    {
        &self.token
    }

    /// The value of the authorization header: the token behind `Bearer`.
    pub fn authorization(&self) -> (r: String)
        ensures
            r@ == "Bearer "@ + self.token_text(),
    {
        let mut out: String = String::from_str("Bearer ");
        out.append(self.token.as_str());
        out
    }

    /// The address of a request: the path behind the base address.
    pub fn request_uri(&self, path: &str) -> (r: String)
        ensures
            r@ == self.base_url_text() + path@,
    {
        let mut out: String = self.base_url.clone();
        out.append(path);
        out
    }
}

/// The path of the state of an entity.
pub fn states_entity_path(entity_id: &str) -> (r: String)
    ensures
        r@ == "/api/states/"@ + entity_id@,
{
    let mut out: String = String::from_str("/api/states/");
    out.append(entity_id);
    out
}

/// The path of an event.
pub fn events_event_path(event: &str) -> (r: String)
    ensures
        r@ == "/api/events/"@ + event@,
{
    let mut out: String = String::from_str("/api/events/");
    out.append(event);
    out
}

/// The path of a service of a domain.
pub fn services_service_path(domain: &str, service: &str) -> (r: String)
    ensures
        r@ == "/api/services/"@ + domain@ + "/"@ + service@,
{
    let mut out: String = String::from_str("/api/services/");
    out.append(domain);
    out.append("/");
    out.append(service);
    out
}

/// Whether an entity is in a state, given the state that was read for it.
pub fn state_matches(read: &String, state: &String) -> (r: bool)
    ensures
        r == (read@ == state@),
{
    *read == *state
}

} // verus!
