//! Reading and replacing the configuration document: what is answered, what is
//! stored, and when the firewall is activated.

use crate::http::{
    application_json, Response, ResponseView, State, APPLICATION_JSON,
    STATUS_INTERNAL_SERVER_ERROR, STATUS_OK,
};
use crate::json::{json_read, JsonView};
use crate::models::{Config, Message};
use crate::wire::{from_read, from_text, to_text, Wire};
use vstd::prelude::*;

verus! {

/// The response to a request that succeeded: the body as it is.
pub open spec fn ok_response(body: Seq<char>) -> ResponseView {
    ResponseView {
        status: STATUS_OK,
        mime: application_json(),
        body: body,
        headers: Seq::empty(),
    }
}

/// The response to a request that failed: the message, as a JSON object with
/// the one member `message`.
pub open spec fn error_response(message: Seq<char>) -> ResponseView {
    ResponseView {
        status: STATUS_INTERNAL_SERVER_ERROR,
        mime: application_json(),
        body: Message::to_tree(message).text(),
        headers: Seq::empty(),
    }
}

/// The response to an outcome: the body of a success, or the message of a
/// failure.
pub open spec fn outcome_response(outcome: Result<Seq<char>, Seq<char>>) -> ResponseView {
    match outcome {
        Ok(body) => ok_response(body),
        Err(message) => error_response(message),
    }
}

/// The views of both sides of an outcome.
pub open spec fn outcome_view(outcome: Result<String, String>) -> Result<Seq<char>, Seq<char>> {
    match outcome {
        Ok(body) => Ok(body@),
        Err(message) => Err(message@),
    }
}

/// The canonical text of the document that a body holds, given what the JSON
/// reader makes of the body; or the message that says why it holds none.
pub open spec fn canonical(read: Result<JsonView, Seq<char>>) -> Result<Seq<char>, Seq<char>> {
    match from_read::<Config>(read) {
        Ok(document) => Ok(Config::to_tree(document).text()),
        Err(e) => Err(e.text()),
    }
}

/// The response to a failure.
pub fn error(message: &str) -> (res: Response)
    ensures
        res@ == error_response(message@),
{
    let msg = Message { message: String::from_str(message) };
    Response::new(STATUS_INTERNAL_SERVER_ERROR, APPLICATION_JSON, to_text::<Message>(&msg))
}

/// The response to an outcome.
pub fn result_to_response(res: Result<String, String>) -> (response: Response)
    ensures
        response@ == outcome_response(outcome_view(res)),
{
    match res {
        Ok(o) => Response::new(STATUS_OK, APPLICATION_JSON, o),
        Err(e) => error(e.as_str()),
    }
}

/// The path of the configuration document, from the context that the pipeline
/// has attached to the request.
pub fn get_config_filename(state: &State) -> (res: &str)
    requires
        state@.config_file is Some,
    ensures
        Some(res@) == state@.config_file,
{
    match &state.config {
        Some(config) => config.get_config_file(),
        None => "",
    }
}

/// Answers a request for the document, given what reading the file at
/// [`get_config_filename`] gave: the stored text as it is, or the error.
pub fn get_config(state: State, content: Result<String, String>) -> (res: (State, Response))
    ensures
        res.0 == state,
        res.1@ == outcome_response(outcome_view(content)),
{
    let resp = result_to_response(content);
    (state, resp)
}

/// What follows the body of a request that replaces the document.
#[derive(Debug, PartialEq, Eq)]
pub enum Replace {
    /// The body holds a document: its canonical text is to be written to the
    /// file at [`get_config_filename`], in place of what is there.
    Store { text: String },
    /// The body could not be had or holds no document: this is the answer, and
    /// nothing is written.
    Reject(Response),
}

/// What follows the attempt to write the document.
#[derive(Debug, PartialEq, Eq)]
pub enum Stored {
    /// The document is written: the firewall is to be activated, and then this
    /// is the answer, however the activation ends.
    Activate(Response),
    /// The document is not written: this is the answer, and the firewall is
    /// not activated.
    Fail(Response),
}

/// Decides on the body of a request that replaces the document, given what
/// collecting the body gave.
pub fn put_config(state: State, body: Result<Vec<u8>, String>) -> (res: (State, Replace))
    ensures
        res.0 == state,
        match body {
            Err(message) => res.1 matches Replace::Reject(r) && r@ == error_response(message@),
            Ok(bytes) => match canonical(json_read(bytes@)) {
                Ok(t) => res.1 matches Replace::Store { text } && text@ == t,
                Err(message) => {
                    &&& res.1 matches Replace::Reject(r)
                    &&& r@ == error_response(message)
                    &&& message.len() > 0
                },
            },
        },
{
    match body {
        Ok(valid_body) => {
            match from_text::<Config>(valid_body.as_slice()) {
                Ok(document) => {
                    let text = to_text::<Config>(&document);
                    (state, Replace::Store { text })
                },
                Err(e) => {
                    let response = error(e.message().as_str());
                    (state, Replace::Reject(response))
                },
            }
        },
        Err(e) => {
            let response = error(e.as_str());
            (state, Replace::Reject(response))
        },
    }
}

/// Decides what follows the attempt to write the canonical text, given what
/// writing gave.
pub fn put_config_stored(state: State, text: String, written: Result<(), String>) -> (res: (
    State,
    Stored,
))
    ensures
        res.0 == state,
        match written {
            Ok(_) => res.1 matches Stored::Activate(r) && r@ == ok_response(text@),
            Err(message) => res.1 matches Stored::Fail(r) && r@ == error_response(message@),
        },
{
    match written {
        Ok(_) => (state, Stored::Activate(result_to_response(Ok(text)))),
        Err(e) => (state, Stored::Fail(result_to_response(Err(e)))),
    }
}

} // verus!
