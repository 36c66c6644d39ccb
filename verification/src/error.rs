//! Errors as an HTTP client sees them: a status code and a JSON body.

use serde_json::Value;
use vstd::prelude::*;

use crate::engine::command::EngineError;
use crate::json::{empty_object, json_of, set_member, string_value, Json};
use crate::text::decimal;

verus! {

/// Why a client's request was not fulfilled.
pub enum AppError {
    /// The request body was empty.
    NoScript,
    /// The `pid` query parameter is missing or no number.
    NoPid,
    /// The engine is gone or does not answer.
    EngineGone,
    /// The session that is meant does not exist.
    UnknownSession(u64),
    /// Any other failure on the engine's side.
    Engine(EngineError),
}

/// How an engine error counts for a client.
pub open spec fn app_error(error: EngineError) -> AppError {
    match error {
        EngineError::UnknownSession(id) => AppError::UnknownSession(id),
        other => AppError::Engine(other),
    }
}

impl From<EngineError> for AppError {
    fn from(error: EngineError) -> (app_error: AppError) {
        match error {
            EngineError::UnknownSession(id) => AppError::UnknownSession(id),
            other => AppError::Engine(other),
        }
    }
}

impl vstd::std_specs::convert::FromSpecImpl<EngineError> for AppError {
    open spec fn obeys_from_spec() -> bool {
        true
    }

    open spec fn from_spec(error: EngineError) -> AppError {
        app_error(error)
    }
}

impl AppError {
    /// The HTTP status code.
    pub open spec fn status(self) -> u16 {
        match self {
            AppError::NoScript => 400,
            AppError::NoPid => 400,
            AppError::EngineGone => 503,
            AppError::UnknownSession(_) => 404,
            AppError::Engine(_) => 500,
        }
    }

    /// The message.
    pub open spec fn text(self) -> Seq<char> {
        match self {
            AppError::NoScript => "no script provided"@,
            AppError::NoPid => "no pid provided"@,
            AppError::EngineGone => "frida engine unavailable"@,
            AppError::UnknownSession(id) => "no session with id "@ + decimal(id as nat),
            AppError::Engine(error) => error.text(),
        }
    }

    /// The status code and the body of the response: a JSON object whose `error` is the
    /// message.
    pub fn into_response(self) -> (response: (u16, Value))
        ensures
            response.0 == self.status(),
            json_of(response.1) == Json::Object(map!["error"@ => Json::Text(self.text())]),
    {
        let (status, message): (u16, String) = match self {
            AppError::NoScript => (400, "no script provided".to_owned()),
            AppError::NoPid => (400, "no pid provided".to_owned()),
            AppError::EngineGone => (503, "frida engine unavailable".to_owned()),
            AppError::UnknownSession(id) => (404, EngineError::UnknownSession(id).message()),
            AppError::Engine(error) => (500, error.message()),
        };
        let mut body = empty_object();
        set_member(&mut body, "error", string_value(message));
        (status, body)
    }
}

/// A client's mistake is told apart from the engine's trouble: a request without a script or a
/// pid is a bad one, an unknown session is not found, and everything that Frida refuses is a
/// server error, which passes on what the engine said.
pub proof fn status_tells_whose_fault(error: EngineError)
    ensures
        app_error(error).text() == error.text(),
        app_error(error).status() == 404 <==> error is UnknownSession,
        app_error(error).status() == 500 <==> error !is UnknownSession,
{
}

/// The response to an error says whose fault it is by its status, and what went wrong by the one
/// member of its body; what the engine said is passed on whole.
pub proof fn response_says_what_went_wrong(
    error: AppError,
    response: (u16, Value),
    cause: EngineError,
    message: String,
)
    requires
        call_ensures(AppError::into_response, (error,), response),
        call_ensures(EngineError::message, (&cause,), message),
    ensures
        error is NoScript ==> response.0 == 400 && json_of(response.1) == Json::Object(
            map!["error"@ => Json::Text("no script provided"@)],
        ),
        error is NoPid ==> response.0 == 400 && json_of(response.1) == Json::Object(
            map!["error"@ => Json::Text("no pid provided"@)],
        ),
        error is EngineGone ==> response.0 == 503 && json_of(response.1) == Json::Object(
            map!["error"@ => Json::Text("frida engine unavailable"@)],
        ),
        error matches AppError::UnknownSession(id) ==> response.0 == 404 && json_of(response.1)
            == Json::Object(
            map!["error"@ => Json::Text("no session with id "@ + decimal(id as nat))],
        ),
        error == AppError::Engine(cause) ==> response.0 == 500 && json_of(response.1)
            == Json::Object(map!["error"@ => Json::Text(message@)]),
{
}

/// An unknown session is told apart from every other error of the engine's, which is kept as it is.
pub proof fn engine_errors_are_kept(error: EngineError, counted: AppError)
    requires
        call_ensures(<AppError as From<EngineError>>::from, (error,), counted),
    ensures
        error matches EngineError::UnknownSession(id) ==> counted == AppError::UnknownSession(id),
        !(error is UnknownSession) ==> counted == AppError::Engine(error),
{
}

}
