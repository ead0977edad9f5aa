//! The request handler's decisions: from a request and the store to a reply.
//!
//! A reply is either the response document with status 200 or an error with
//! a status and a detail. Nothing here touches a socket: the caller hands in
//! the address parameter and the store as it could obtain it, and sends the
//! reply as it sees fit.

use crate::format::{
    asn_document, city_location, country_location, flag_of_code, format_asn,
    format_location_city, format_location_country, text_view, Asn, Location,
};
use crate::resolve::{
    resolution, resolve, BadInput, Failure, GeoMatch, Outcome, Resolved, StoreError,
};
use crate::store::RangeStore;
use vstd::prelude::*;
use vstd::string::StringSliceAdditionalSpecFns;

verus! {

/// The attribution that every response document carries.
pub const MESSAGE_TEXT: &'static str =
    "If you are using this solution, please reference the main project at https://whattimeis.in. This helps us keep the project actively maintained with new blocks and updates.";

/// The label of a location that a city block gave.
pub const SOURCE_CITY: &'static str = "city";

/// The label of a location that a country block gave.
pub const SOURCE_COUNTRY: &'static str = "country";

/// The body of an error reply.
#[derive(Debug, PartialEq, Eq)]
pub struct ErrorReply {
    pub status: u16,
    pub detail: String,
}

/// The response document of a successful lookup.
#[derive(Debug, PartialEq, Eq)]
pub struct ResponsePayload {
    pub status: i32,
    pub ip: String,
    pub ip_version: i64,
    pub location: Location,
    pub asn: Option<Asn>,
    pub message: String,
}

/// What is sent back for a request.
#[derive(Debug, PartialEq, Eq)]
pub enum Reply {
    Document(ResponsePayload),
    Error(ErrorReply),
}

/// The HTTP status of a failure.
pub open spec fn status_of(failure: Failure) -> u16 {
    match failure {
        Failure::BadInput(_) => 400,
        Failure::StoreUnavailable(_) => 500,
        Failure::NotFound => 404,
        Failure::RouteNotFound => 404,
    }
}

/// The detail text of a failure.
pub open spec fn detail_of(failure: Failure) -> Seq<char> {
    match failure {
        Failure::BadInput(BadInput::MissingParameter) => "Missing ip parameter"@,
        Failure::BadInput(BadInput::Invalid(_)) => "Invalid IP address"@,
        Failure::StoreUnavailable(StoreError::NotFound) => "Database file not found"@,
        Failure::StoreUnavailable(StoreError::OpenFailed) => "Database open failed"@,
        Failure::NotFound => "IP not found in ranges"@,
        Failure::RouteNotFound => "Route not found"@,
    }
}

/// Whether `document` is the response document for the address text `ip`
/// and what its resolution found.
pub open spec fn is_document_of(document: ResponsePayload, ip: Seq<char>, found: Resolved)
    -> bool {
    let flag = document.location.geo.country.flag_emoji;
    &&& document.status == 200
    &&& document.ip@ == ip
    &&& document.ip_version == found.key.version
    &&& document.message@ == MESSAGE_TEXT@
    &&& document.asn == asn_document(found.asn)
    &&& match found.geo {
        GeoMatch::City(row) => {
            &&& document.location.source@ == SOURCE_CITY@
            &&& text_view(flag) == flag_of_code(text_view(row.country_iso_code))
            &&& document.location == city_location(row, document.location.source, flag)
        },
        GeoMatch::Country(row) => {
            &&& document.location.source@ == SOURCE_COUNTRY@
            &&& text_view(flag) == flag_of_code(text_view(row.country_iso_code))
            &&& document.location == country_location(row, document.location.source, flag)
        },
    }
}

/// Whether `reply` is the reply for the address text `ip` and the outcome of
/// its resolution.
pub open spec fn is_reply_to(reply: Reply, ip: Seq<char>, outcome: Outcome) -> bool {
    match outcome {
        Outcome::Found(found) => reply matches Reply::Document(document) && is_document_of(
            document,
            ip,
            found,
        ),
        Outcome::Failed(failure) => reply matches Reply::Error(error) && error.status
            == status_of(failure) && error.detail@ == detail_of(failure),
    }
}

/// The address text of a request: empty when the parameter is absent.
pub open spec fn requested(ip: Option<&str>) -> Seq<char> {
    match ip {
        Some(text) => text@,
        None => Seq::empty(),
    }
}

/// The outcome of a request: `BadInput` when the address parameter is
/// absent or empty, else the resolution of its text.
pub open spec fn request_outcome(
    ip: Option<&str>,
    store: Result<RangeStore, StoreError>,
    locale: Seq<char>,
) -> Outcome {
    match ip {
        Some(text) => if text@.len() == 0 {
            Outcome::Failed(Failure::BadInput(BadInput::MissingParameter))
        } else {
            resolution(text.spec_bytes(), store, locale)
        },
        None => Outcome::Failed(Failure::BadInput(BadInput::MissingParameter)),
    }
}

/// An error body with the given status and detail.
pub fn json_error(status: u16, detail: &str) -> (reply: ErrorReply)
    ensures
        reply.status == status,
        reply.detail@ == detail@,
{
    ErrorReply { status, detail: detail.to_owned() }
}

/// The error body of a failure: its HTTP status and its detail text.
pub fn failure_reply(failure: Failure) -> (reply: ErrorReply)
    ensures
        reply.status == status_of(failure),
        reply.detail@ == detail_of(failure),
{
    match failure {
        Failure::BadInput(BadInput::MissingParameter) => json_error(400, "Missing ip parameter"),
        Failure::BadInput(BadInput::Invalid(_)) => json_error(400, "Invalid IP address"),
        Failure::StoreUnavailable(StoreError::NotFound) => json_error(
            500,
            "Database file not found",
        ),
        Failure::StoreUnavailable(StoreError::OpenFailed) => json_error(500, "Database open failed"),
        Failure::NotFound => json_error(404, "IP not found in ranges"),
        Failure::RouteNotFound => json_error(404, "Route not found"),
    }
}

/// The reply to a request for a path that does not exist.
pub fn fallback() -> (reply: ErrorReply)
    ensures
        reply.status == 404,
        reply.detail@ == "Route not found"@,
{
    failure_reply(Failure::RouteNotFound)
}

/// The reply for the address text `ip` and the outcome of its resolution.
///
/// A `Found` outcome becomes the response document: status 200, the address
/// as it was asked, its family, the location of the geographic match under
/// the label of its dataset, the ASN document if there was an ASN match, and
/// the attribution. A failure becomes its error body.
pub fn respond(ip: &str, outcome: Outcome) -> (reply: Reply)
    ensures
        is_reply_to(reply, ip@, outcome),
{
    match outcome {
        Outcome::Found(found) => {
            let location = match found.geo {
                GeoMatch::City(row) => format_location_city(row, SOURCE_CITY),
                GeoMatch::Country(row) => format_location_country(row, SOURCE_COUNTRY),
            };
            Reply::Document(
                ResponsePayload {
                    status: 200,
                    ip: ip.to_owned(),
                    ip_version: found.key.version,
                    location,
                    asn: format_asn(found.asn),
                    message: MESSAGE_TEXT.to_owned(),
                },
            )
        },
        Outcome::Failed(failure) => Reply::Error(failure_reply(failure)),
    }
}

/// Handles one lookup request.
///
/// `ip` is the address parameter of the request, if it has one, and `store`
/// is the store as the caller could obtain it. An absent or empty parameter
/// is answered first, a parameter without a key next, an unavailable store
/// after that; only then do the lookups decide.
pub fn lookup_handler(ip: Option<&str>, store: &Result<RangeStore, StoreError>, locale: &str)
    -> (reply: Reply)
    ensures
        is_reply_to(reply, requested(ip), request_outcome(ip, *store, locale@)),
{
    match ip {
        Some(text) => {
            if text.is_empty() {
                Reply::Error(failure_reply(Failure::BadInput(BadInput::MissingParameter)))
            } else {
                respond(text, resolve(text, store, locale))
            }
        },
        None => Reply::Error(failure_reply(Failure::BadInput(BadInput::MissingParameter))),
    }
}

} // verus!
