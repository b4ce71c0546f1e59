//! Requests to the price service and the reading of its answers.
//!
//! Nothing here touches the network. A [`Client`] says which request each
//! query makes; whoever owns the connection sends it and comes back with the
//! status of the answer, and [`body_kind`] says what the body then holds.

use crate::data_types::{APIError, ItemId};
use crate::decimal::{decimal_text, render_decimal};
use vstd::prelude::*;

verus! {

/// Where every route of the service starts.
pub const BASE_URL: &'static str = "https://prices.runescape.wiki/api/v1";

/// The header in which a request names who sends it.
pub const USER_AGENT_HEADER: &'static str = "user-agent";

/// The first of the HTTP statuses that report success.
pub const FIRST_SUCCESS_STATUS: u16 = 200;

/// The last of the HTTP statuses that report success.
pub const LAST_SUCCESS_STATUS: u16 = 299;

/// The game worlds whose prices the service tracks.
#[derive(Clone, Copy, Debug, PartialEq, Eq, Structural)]
pub enum Endpoint {
    OldSchoolRuneScape,
    DeadManReborn,
    FreshStartWorlds,
}

impl Endpoint {
    /// The path segment under which the service keeps this world.
    pub open spec fn segment(self) -> Seq<char> {
        match self {
            Endpoint::OldSchoolRuneScape => "osrs"@,
            Endpoint::DeadManReborn => "dmm"@,
            Endpoint::FreshStartWorlds => "fsw"@,
        }
    }

    /// The path segment under which the service keeps this world.
    pub fn to_string(&self) -> (text: String)
        ensures
            text@ == self.segment(),
    {
        match self {
            Endpoint::OldSchoolRuneScape => String::from_str("osrs"),
            Endpoint::DeadManReborn => String::from_str("dmm"),
            Endpoint::FreshStartWorlds => String::from_str("fsw"),
        }
    }
}

/// An averaging window offered by the service.
#[derive(Clone, Copy, Debug, PartialEq, Eq, Structural)]
pub enum Timestep {
    FiveMinutes,
    TenMinutes,
    ThirtyMinutes,
    OneHour,
    ThreeHours,
    SixHours,
    OneDay,
}

impl Timestep {
    /// Length of the window in seconds.
    pub open spec fn seconds(self) -> int {
        match self {
            Timestep::FiveMinutes => 300,
            Timestep::TenMinutes => 600,
            Timestep::ThirtyMinutes => 1800,
            Timestep::OneHour => 3600,
            Timestep::ThreeHours => 10800,
            Timestep::SixHours => 21600,
            Timestep::OneDay => 86400,
        }
    }

    /// The name of the window, which is also the name of its route.
    pub open spec fn route_name(self) -> Seq<char> {
        match self {
            Timestep::FiveMinutes => "5m"@,
            Timestep::TenMinutes => "10m"@,
            Timestep::ThirtyMinutes => "30m"@,
            Timestep::OneHour => "1h"@,
            Timestep::ThreeHours => "3h"@,
            Timestep::SixHours => "6h"@,
            Timestep::OneDay => "24h"@,
        }
    }

    /// The name of the window, which is also the name of its route.
    pub fn to_string(&self) -> (text: String)
        ensures
            text@ == self.route_name(),
    {
        match self {
            Timestep::FiveMinutes => String::from_str("5m"),
            Timestep::TenMinutes => String::from_str("10m"),
            Timestep::ThirtyMinutes => String::from_str("30m"),
            Timestep::OneHour => String::from_str("1h"),
            Timestep::ThreeHours => String::from_str("3h"),
            Timestep::SixHours => String::from_str("6h"),
            Timestep::OneDay => String::from_str("24h"),
        }
    }
}

/// No two time steps share a length or a route: either of the two tells
/// which time step is meant.
pub proof fn lemma_timesteps_are_told_apart(a: Timestep, b: Timestep)
    requires
        a != b,
    ensures
        a.seconds() != b.seconds(),
        a.route_name() != b.route_name(),
{
    reveal_strlit("5m");
    reveal_strlit("10m");
    reveal_strlit("30m");
    reveal_strlit("1h");
    reveal_strlit("3h");
    reveal_strlit("6h");
    reveal_strlit("24h");
    assert("5m"@.len() == 2 && "1h"@.len() == 2 && "3h"@.len() == 2 && "6h"@.len() == 2);
    assert("10m"@.len() == 3 && "30m"@.len() == 3 && "24h"@.len() == 3);
    // Route names of one length differ in their first character.
    assert("5m"@[0] != "1h"@[0] && "5m"@[0] != "3h"@[0] && "5m"@[0] != "6h"@[0]);
    assert("1h"@[0] != "3h"@[0] && "1h"@[0] != "6h"@[0] && "3h"@[0] != "6h"@[0]);
    assert("10m"@[0] != "30m"@[0] && "10m"@[0] != "24h"@[0] && "30m"@[0] != "24h"@[0]);
}

impl From<Timestep> for i64 {
    /// Length of the window in seconds.
    fn from(timestep: Timestep) -> (secs: i64) {
        match timestep {
            Timestep::FiveMinutes => 300,
            Timestep::TenMinutes => 600,
            Timestep::ThirtyMinutes => 1800,
            Timestep::OneHour => 3600,
            Timestep::ThreeHours => 10800,
            Timestep::SixHours => 21600,
            Timestep::OneDay => 86400,
        }
    }
}

impl vstd::std_specs::convert::FromSpecImpl<Timestep> for i64 {
    open spec fn obeys_from_spec() -> bool {
        true
    }

    open spec fn from_spec(timestep: Timestep) -> i64 {
        timestep.seconds() as i64
    }
}

/// A GET request, ready to be sent.
#[derive(Debug, PartialEq, Eq)]
pub struct Request {
    /// The address, without query parameters.
    pub url: String,
    /// The query parameters, name and value, in the order in which they are
    /// to be attached.
    pub query: Vec<(&'static str, String)>,
    /// The value of the header that names the sender.
    pub user_agent: String,
}

/// What a [`Request`] holds, as plain sequences.
pub struct RequestView {
    pub url: Seq<char>,
    pub query: Seq<(Seq<char>, Seq<char>)>,
    pub user_agent: Seq<char>,
}

/// The names and values of query parameters as character sequences.
pub open spec fn query_view(query: Seq<(&'static str, String)>) -> Seq<(Seq<char>, Seq<char>)> {
    Seq::new(query.len(), |i: int| (query[i].0@, query[i].1@))
}

impl View for Request {
    type V = RequestView;

    open spec fn view(&self) -> RequestView {
        RequestView {
            url: self.url@,
            query: query_view(self.query@),
            user_agent: self.user_agent@,
        }
    }
}

/// The address of `route` in the world `endpoint`.
pub open spec fn route_url(endpoint: Endpoint, route: Seq<char>) -> Seq<char> {
    BASE_URL@ + seq!['/'] + endpoint.segment() + seq!['/'] + route
}

/// The query of the route `latest`: the item, where one is asked for.
pub open spec fn latest_query(item_id: Option<ItemId>) -> Seq<(Seq<char>, Seq<char>)> {
    match item_id {
        Some(id) => seq![("id"@, decimal_text(id.0 as int))],
        None => seq![],
    }
}

/// The query of an averaging route: the start of the window, where one is
/// asked for.
pub open spec fn average_query(timestamp: Option<i64>) -> Seq<(Seq<char>, Seq<char>)> {
    match timestamp {
        Some(start) => seq![("timestamp"@, decimal_text(start as int))],
        None => seq![],
    }
}

/// The query of the route `timeseries`: the item, then the time step.
pub open spec fn timeseries_query(item_id: ItemId, timestep: Timestep) -> Seq<
    (Seq<char>, Seq<char>),
> {
    seq![("id"@, decimal_text(item_id.0 as int)), ("timestep"@, timestep.route_name())]
}

/// What a client is configured with.
pub struct ClientView {
    pub endpoint: Endpoint,
    pub user_agent: Seq<char>,
}

/// The configuration from which the requests to the service are made: the
/// world whose prices are asked for, and the name under which to ask.
///
/// The service asks its users to name themselves in a way that lets its
/// maintainers reach them, so `user_agent` should say who runs the program.
#[derive(Debug)]
pub struct Client {
    endpoint: Endpoint,
    user_agent: String,
}

impl View for Client {
    type V = ClientView;

    closed spec fn view(&self) -> ClientView {
        ClientView { endpoint: self.endpoint, user_agent: self.user_agent@ }
    }
}

impl Client {
    /// A client for the world `endpoint` that names itself `user_agent`.
    /// Nothing is sent: the client only keeps the two.
    #[must_use]
    pub fn new(endpoint: Endpoint, user_agent: &str) -> (client: Client)
        ensures
            client@.endpoint == endpoint,
            client@.user_agent == user_agent@,
    {
        Client { endpoint, user_agent: String::from_str(user_agent) }
    }

    /// The world whose prices this client asks for.
    pub fn endpoint(&self) -> (endpoint: Endpoint)
        ensures
            endpoint == self@.endpoint,
    {
        self.endpoint
    }

    /// The name under which this client asks.
    pub fn user_agent(&self) -> (user_agent: &str)
        ensures
            user_agent@ == self@.user_agent,
    {
        self.user_agent.as_str()
    }

    /// The request for `route` in this client's world, with the parameters
    /// `query` and this client's name.
    pub fn get_endpoint(&self, route: &str, query: Vec<(&'static str, String)>) -> (request:
        Request)
        ensures
            request@.url == route_url(self@.endpoint, route@),
            request@.query == query_view(query@),
            request.query == query,
            request@.user_agent == self@.user_agent,
    {
        let mut url = String::from_str(BASE_URL);
        let segment = self.endpoint.to_string();
        proof {
            reveal_strlit("/");
        }
        url.append("/");
        url.append(segment.as_str());
        url.append("/");
        url.append(route);
        assert(url@ =~= route_url(self@.endpoint, route@));
        Request { url, query, user_agent: self.user_agent.clone() }
    }

    /// The request for the latest prices: of `item_id` where it is given, of
    /// all items where it is not.
    pub fn get_latest(&self, item_id: Option<ItemId>) -> (request: Request)
        ensures
            request@.url == route_url(self@.endpoint, "latest"@),
            request@.query == latest_query(item_id),
            request@.user_agent == self@.user_agent,
    {
        let mut params: Vec<(&'static str, String)> = Vec::new();
        if let Some(id) = item_id {
            params.push(("id", id.to_string()));
        }
        assert(query_view(params@) =~= latest_query(item_id));
        self.get_endpoint("latest", params)
    }

    /// The request for the catalog of all tradeable items.
    pub fn get_mapping(&self) -> (request: Request)
        ensures
            request@.url == route_url(self@.endpoint, "mapping"@),
            request@.query == Seq::<(Seq<char>, Seq<char>)>::empty(),
            request@.user_agent == self@.user_agent,
    {
        let params: Vec<(&'static str, String)> = Vec::new();
        assert(query_view(params@) =~= Seq::<(Seq<char>, Seq<char>)>::empty());
        self.get_endpoint("mapping", params)
    }

    /// The request for the prices averaged over one window of `timestep`:
    /// the window that starts at `timestamp` where it is given, the latest
    /// one where it is not.
    ///
    /// The service refuses a `timestamp` that is not a multiple of the length
    /// of `timestep`;
    /// [`round_to_previous_timestamp`](crate::utils::round_to_previous_timestamp)
    /// gives the nearest one that it accepts.
    pub fn get_average(&self, timestep: Timestep, timestamp: Option<i64>) -> (request: Request)
        ensures
            request@.url == route_url(self@.endpoint, timestep.route_name()),
            request@.query == average_query(timestamp),
            request@.user_agent == self@.user_agent,
    {
        let route = timestep.to_string();
        let mut params: Vec<(&'static str, String)> = Vec::new();
        if let Some(start) = timestamp {
            params.push(("timestamp", render_decimal(start)));
        }
        assert(query_view(params@) =~= average_query(timestamp));
        self.get_endpoint(route.as_str(), params)
    }

    /// The request for the price history of `item_id`, one entry for each
    /// window of `timestep`.
    pub fn get_timeseries(&self, item_id: ItemId, timestep: Timestep) -> (request: Request)
        ensures
            request@.url == route_url(self@.endpoint, "timeseries"@),
            request@.query == timeseries_query(item_id, timestep),
            request@.user_agent == self@.user_agent,
    {
        let mut params: Vec<(&'static str, String)> = Vec::new();
        params.push(("id", item_id.to_string()));
        params.push(("timestep", timestep.to_string()));
        assert(query_view(params@) =~= timeseries_query(item_id, timestep));
        self.get_endpoint("timeseries", params)
    }
}

/// What the body of an answer holds.
#[derive(Clone, Copy, Debug, PartialEq, Eq, Structural)]
pub enum BodyKind {
    /// The record that the request asked for.
    Record,
    /// An [`APIError`]: the service refused the request.
    Refusal,
}

/// Whether `status` is an HTTP status that reports success: one of the
/// statuses from 200 to 299.
pub open spec fn is_success(status: u16) -> bool {
    FIRST_SUCCESS_STATUS <= status <= LAST_SUCCESS_STATUS
}

/// What the body of an answer with the HTTP status `status` holds: the
/// record that was asked for if the status reports success, the service's
/// refusal for every other status.
pub fn body_kind(status: u16) -> (kind: BodyKind)
    ensures
        kind == if is_success(status) {
            BodyKind::Record
        } else {
            BodyKind::Refusal
        },
{
    if FIRST_SUCCESS_STATUS <= status && status <= LAST_SUCCESS_STATUS {
        BodyKind::Record
    } else {
        BodyKind::Refusal
    }
}

/// Why a query failed. `E` is the error of the transport that carried the
/// request.
#[derive(Debug)]
pub enum Error<E> {
    /// The request could not be sent, no answer came, or the body of the
    /// answer was not what its status promised. The transport's error is
    /// kept as it came.
    ReqwestError(E),
    /// The service answered, and refused the request.
    ResponseError(APIError),
}

impl<E> From<APIError> for Error<E> {
    fn from(err: APIError) -> (error: Error<E>) {
        Error::ResponseError(err)
    }
}

impl<E> vstd::std_specs::convert::FromSpecImpl<APIError> for Error<E> {
    open spec fn obeys_from_spec() -> bool {
        true
    }

    open spec fn from_spec(err: APIError) -> Error<E> {
        Error::ResponseError(err)
    }
}

/// The outcome of a step of a query that only the transport can fail:
/// sending the request, or reading the record from the body of an answer
/// whose status reports success. What the transport hands back is the
/// outcome, and its error, where it has one, is kept as it came: a body that
/// is not the record is never reported as the service's refusal.
pub fn record_outcome<T, E>(decoded: Result<T, E>) -> (outcome: Result<T, Error<E>>)
    ensures
        outcome == match decoded {
            Ok(record) => Ok::<T, Error<E>>(record),
            Err(err) => Err::<T, Error<E>>(Error::ReqwestError(err)),
        },
{
    match decoded {
        Ok(record) => Ok(record),
        Err(err) => Err(Error::ReqwestError(err)),
    }
}

/// The outcome of a query that the service refused: never the record. The
/// error is the service's refusal if the transport could read it from the
/// body, and the transport's error if it could not.
pub fn refusal_outcome<T, E>(decoded: Result<APIError, E>) -> (outcome: Result<T, Error<E>>)
    ensures
        outcome == match decoded {
            Ok(refusal) => Err::<T, Error<E>>(Error::ResponseError(refusal)),
            Err(err) => Err::<T, Error<E>>(Error::ReqwestError(err)),
        },
{
    match decoded {
        Ok(refusal) => Err(Error::from(refusal)),
        Err(err) => Err(Error::ReqwestError(err)),
    }
}

impl<E: core::fmt::Display> Error<E> {
    /// What went wrong, in words: the service's own message if it refused
    /// the request, what the transport's error displays otherwise.
    pub fn to_string(&self) -> (text: String)
        ensures
            match self {
                Error::ReqwestError(err) => vstd::string::to_string_from_display_ensures::<E>(
                    err,
                    text,
                ),
                Error::ResponseError(refusal) => text@ == refusal.error@,
            },
    {
        match self {
            Error::ReqwestError(err) => err.to_string(),
            Error::ResponseError(refusal) => refusal.to_string(),
        }
    }
}

} // verus!
