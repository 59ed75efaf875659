//! The decision core of the three native entry points.
//!
//! Every entry point has the same shape: decode the raw inputs, run the
//! one user callback for that stage inside a panic-isolating scope, and
//! translate whatever came out of it into one of three fixed status
//! integers — never letting richer detail, an unhandled error or an
//! unwind cross back into OpenVPN. The decoding and the translation are
//! pure decisions and are verified here; the thin unsafe shell outside
//! this crate only walks pointers, runs the callback under a panic catch,
//! hands the [`CallbackOutcome`] in, and writes the decision out.
//!
//! Decode failures are fatal for the call: a malformed argument or
//! environment array ([`decode_args_env`]) and an unrecognized event code
//! ([`decode_event_input`]) each produce the error status together with a
//! report. A callback outcome is mapped by [`dispatch_open`],
//! [`dispatch_event`] and [`dispatch_close`]: errors and panics are
//! reported and degrade to the error status, while an intentional
//! [`EventResult::Failure`] yields the error status with nothing
//! reported.

use vstd::prelude::*;
use vstd::string::StringExecFns;

use crate::logging::{
    error_text, format_error, format_i32, format_panic, int_text, panic_text, text_views, Error,
};
use crate::parse::{
    all_have_equal, byte_views, env, env_map_of, first_without_equal, no_equal_text,
    parse_error_text, string_array, EnvMap, ParseError,
};
use crate::types::{event_of_code, events_to_bitmask, spec_bitmask, EventResult, EventType};

verus! {

/// Status returned to OpenVPN when an entry point succeeds, or when a
/// request it stands for is accepted.
pub const OPENVPN_PLUGIN_FUNC_SUCCESS: i32 = 0;

/// Status returned to OpenVPN when an entry point fails, or when a
/// request it stands for is declined.
pub const OPENVPN_PLUGIN_FUNC_ERROR: i32 = 1;

/// Status returned to OpenVPN when the decision of an asynchronous
/// authentication event will be delivered out of band.
pub const OPENVPN_PLUGIN_FUNC_DEFERRED: i32 = 2;

/// Whether a status is one of the three integers OpenVPN accepts.
pub open spec fn valid_status(status: i32) -> bool {
    ||| status == OPENVPN_PLUGIN_FUNC_SUCCESS
    ||| status == OPENVPN_PLUGIN_FUNC_ERROR
    ||| status == OPENVPN_PLUGIN_FUNC_DEFERRED
}

/// What running a user callback inside the panic-isolating scope came to.
///
/// The scope around the callback lives outside this crate (it must catch
/// an unwind, which nothing verified can do); it reduces the run to this
/// plain value and hands it to the dispatch functions below.
pub enum CallbackOutcome<T> {
    /// The callback returned its value.
    Returned(T),
    /// The callback returned an error, already reduced to a summary and
    /// its cause chain.
    Failed(Error),
    /// The callback panicked; the payload's string message is carried
    /// when it had one.
    Panicked(Option<String>),
}

/// A status integer for OpenVPN, together with the diagnostic to report
/// before returning it, if any.
#[derive(Debug)]
pub struct StatusReport {
    /// One of the three status integers.
    pub status: i32,
    /// The report to hand the diagnostic sink, where something is to be
    /// reported at all — at most once per call.
    pub report: Option<String>,
}

/// What a successful open hands back to OpenVPN: the bitmask of the
/// events the plugin registers for, and the handle whose address becomes
/// the opaque token.
#[derive(Debug)]
pub struct OpenSuccess<H> {
    /// The event bitmask for `type_mask`.
    pub type_mask: i32,
    /// The plugin's state handle.
    pub handle: H,
}

/// The complete decision of an open call.
#[derive(Debug)]
pub struct OpenDecision<H> {
    /// One of the three status integers.
    pub status: i32,
    /// The report to hand the diagnostic sink, if any.
    pub report: Option<String>,
    /// The values to write back to OpenVPN; present exactly on success.
    pub success: Option<OpenSuccess<H>>,
}

/// The view of an optional panic message.
pub open spec fn message_view(message: Option<String>) -> Option<Seq<char>> {
    match message {
        Some(text) => Some(text@),
        None => None,
    }
}

/// The report text of a decode failure: the context summary with a single
/// cause line.
pub open spec fn abi_error_text(context: Seq<char>, cause: Seq<char>) -> Seq<char> {
    error_text(context, seq![cause])
}

/// Whether an argument and environment array pair decodes cleanly: both
/// present, and every environment entry holding an `=` byte.
pub open spec fn args_env_ok(argv: Option<Vec<Vec<u8>>>, envp: Option<Vec<Vec<u8>>>) -> bool {
    match (argv, envp) {
        (Some(_), Some(env_strings)) => all_have_equal(byte_views(env_strings@)),
        _ => false,
    }
}

/// The report text of the decode failure of an argument and environment
/// array pair; meaningful only where `args_env_ok` fails. The argument
/// array is decoded first, so its failure wins; a malformed environment
/// entry appears quoted in the cause line.
pub open spec fn args_env_failure_text(
    argv: Option<Vec<Vec<u8>>>,
    envp: Option<Vec<Vec<u8>>>,
) -> Seq<char> {
    if argv is None || envp is None {
        abi_error_text(
            if argv is None {
                "Malformed args from OpenVPN"@
            } else {
                "Malformed env from OpenVPN"@
            },
            parse_error_text(ParseError::NullPtr),
        )
    } else {
        let entries = byte_views(envp.unwrap()@);
        abi_error_text(
            "Malformed env from OpenVPN"@,
            no_equal_text(entries[first_without_equal(entries)]),
        )
    }
}

/// The report text of an event call whose numeric code is undefined,
/// naming the offending code.
pub open spec fn invalid_code_text(code: int) -> Seq<char> {
    abi_error_text("Invalid event integer"@, "Unrecognized event code "@ + int_text(code))
}

/// Builds the report of a decode failure from its context summary and the
/// failure's cause line.
fn abi_failure(context: &str, cause: String) -> (failure: StatusReport)
    ensures
        failure.status == OPENVPN_PLUGIN_FUNC_ERROR,
        failure.report matches Some(text) && text@ == abi_error_text(context@, cause@),
{
    let ghost cause_view = cause@;
    let error = Error::new(context, vec![cause]);
    proof {
        assert(text_views(error.causes@) =~= seq![cause_view]);
    }
    StatusReport { status: OPENVPN_PLUGIN_FUNC_ERROR, report: Some(format_error(&error)) }
}

/// Decodes the argument and environment arrays an entry point received,
/// where `None` stands for a null array pointer.
///
/// Both must be present and every environment entry must hold an `=`
/// byte; any failure aborts the call with the error status and a report
/// naming what was malformed.
pub fn decode_args_env(argv: Option<Vec<Vec<u8>>>, envp: Option<Vec<Vec<u8>>>) -> (result: Result<
    (Vec<Vec<u8>>, EnvMap),
    StatusReport,
>)
    ensures
        args_env_ok(argv, envp) ==> ({
            &&& result matches Ok(out)
            &&& argv matches Some(args)
            &&& out.0 == args
            &&& envp matches Some(env_strings)
            &&& out.1@ == env_map_of(byte_views(env_strings@))
        }),
        !args_env_ok(argv, envp) ==> ({
            &&& result matches Err(failure)
            &&& failure.status == OPENVPN_PLUGIN_FUNC_ERROR
            &&& failure.report matches Some(text)
            &&& text@ == args_env_failure_text(argv, envp)
        }),
{
    let args = match string_array(argv) {
        Ok(args) => args,
        Err(e) => {
            return Err(abi_failure("Malformed args from OpenVPN", e.message()));
        },
    };
    let map = match env(envp) {
        Ok(map) => map,
        Err(e) => {
            return Err(abi_failure("Malformed env from OpenVPN", e.message()));
        },
    };
    Ok((args, map))
}

/// Decodes the inputs of an event call: the numeric event code first —
/// an unrecognized code is a fatal protocol mismatch — then the argument
/// and environment arrays, as [`decode_args_env`] does.
pub fn decode_event_input(
    event_code: i32,
    argv: Option<Vec<Vec<u8>>>,
    envp: Option<Vec<Vec<u8>>>,
) -> (result: Result<(EventType, Vec<Vec<u8>>, EnvMap), StatusReport>)
    ensures
        event_of_code(event_code as int) is None ==> ({
            &&& result matches Err(failure)
            &&& failure.status == OPENVPN_PLUGIN_FUNC_ERROR
            &&& failure.report matches Some(text)
            &&& text@ == invalid_code_text(event_code as int)
        }),
        event_of_code(event_code as int) matches Some(event) ==> ({
            &&& args_env_ok(argv, envp) ==> ({
                &&& result matches Ok(out)
                &&& out.0 == event
                &&& argv matches Some(args)
                &&& out.1 == args
                &&& envp matches Some(env_strings)
                &&& out.2@ == env_map_of(byte_views(env_strings@))
            })
            &&& !args_env_ok(argv, envp) ==> ({
                &&& result matches Err(failure)
                &&& failure.status == OPENVPN_PLUGIN_FUNC_ERROR
                &&& failure.report matches Some(text)
                &&& text@ == args_env_failure_text(argv, envp)
            })
        }),
{
    let event = match EventType::from_int(event_code) {
        Ok(event) => event,
        Err(code) => {
            let mut cause = String::from_str("Unrecognized event code ");
            cause.append(format_i32(code).as_str());
            return Err(abi_failure("Invalid event integer", cause));
        },
    };
    let (args, map) = match decode_args_env(argv, envp) {
        Ok(out) => out,
        Err(failure) => {
            return Err(failure);
        },
    };
    Ok((event, args, map))
}

/// Renders a panic caught in the named stage as a report.
fn panic_report(source: &str, message: Option<String>) -> (text: String)
    ensures
        text@ == panic_text(source@, message_view(message)),
{
    match message {
        Some(text) => format_panic(source, Some(text.as_str())),
        None => format_panic(source, None),
    }
}

/// Translates the outcome of the open callback into the open call's
/// decision.
///
/// A returned pair becomes the success status with the events encoded as
/// the bitmask and the handle passed on; an error or a panic is reported
/// and becomes the error status, telling OpenVPN to abort and exit.
pub fn dispatch_open<H>(outcome: CallbackOutcome<(Vec<EventType>, H)>) -> (decision: OpenDecision<
    H,
>)
    ensures
        valid_status(decision.status),
        outcome matches CallbackOutcome::Returned(value) ==> ({
            &&& decision.status == OPENVPN_PLUGIN_FUNC_SUCCESS
            &&& decision.report is None
            &&& decision.success matches Some(success)
            &&& success.type_mask == spec_bitmask(value.0@)
            &&& success.handle == value.1
        }),
        outcome matches CallbackOutcome::Failed(error) ==> ({
            &&& decision.status == OPENVPN_PLUGIN_FUNC_ERROR
            &&& decision.success is None
            &&& decision.report matches Some(text)
            &&& text@ == error_text(error.msg@, text_views(error.causes@))
        }),
        outcome matches CallbackOutcome::Panicked(message) ==> ({
            &&& decision.status == OPENVPN_PLUGIN_FUNC_ERROR
            &&& decision.success is None
            &&& decision.report matches Some(text)
            &&& text@ == panic_text("plugin open"@, message_view(message))
        }),
{
    match outcome {
        CallbackOutcome::Returned((events, handle)) => {
            let type_mask = events_to_bitmask(events.as_slice());
            OpenDecision {
                status: OPENVPN_PLUGIN_FUNC_SUCCESS,
                report: None,
                success: Some(OpenSuccess { type_mask, handle }),
            }
        },
        CallbackOutcome::Failed(error) => OpenDecision {
            status: OPENVPN_PLUGIN_FUNC_ERROR,
            report: Some(format_error(&error)),
            success: None,
        },
        CallbackOutcome::Panicked(message) => OpenDecision {
            status: OPENVPN_PLUGIN_FUNC_ERROR,
            report: Some(panic_report("plugin open", message)),
            success: None,
        },
    }
}

/// Translates the outcome of the event callback into the event call's
/// status and report.
///
/// `Success` maps to the success status and `Deferred` to the deferred
/// status; `Failure` is an intentional decline and maps to the error
/// status with nothing reported. An error or a panic is reported — the
/// report is handed out exactly once — and becomes the error status.
pub fn dispatch_event(outcome: CallbackOutcome<EventResult>) -> (decision: StatusReport)
    ensures
        valid_status(decision.status),
        outcome matches CallbackOutcome::Returned(result) ==> (decision.report is None
            && decision.status == match result {
            EventResult::Success => OPENVPN_PLUGIN_FUNC_SUCCESS,
            EventResult::Deferred => OPENVPN_PLUGIN_FUNC_DEFERRED,
            EventResult::Failure => OPENVPN_PLUGIN_FUNC_ERROR,
        }),
        outcome matches CallbackOutcome::Failed(error) ==> ({
            &&& decision.status == OPENVPN_PLUGIN_FUNC_ERROR
            &&& decision.report matches Some(text)
            &&& text@ == error_text(error.msg@, text_views(error.causes@))
        }),
        outcome matches CallbackOutcome::Panicked(message) ==> ({
            &&& decision.status == OPENVPN_PLUGIN_FUNC_ERROR
            &&& decision.report matches Some(text)
            &&& text@ == panic_text("plugin func"@, message_view(message))
        }),
{
    match outcome {
        CallbackOutcome::Returned(result) => StatusReport {
            status: match result {
                EventResult::Success => OPENVPN_PLUGIN_FUNC_SUCCESS,
                EventResult::Deferred => OPENVPN_PLUGIN_FUNC_DEFERRED,
                EventResult::Failure => OPENVPN_PLUGIN_FUNC_ERROR,
            },
            report: None,
        },
        CallbackOutcome::Failed(error) => StatusReport {
            status: OPENVPN_PLUGIN_FUNC_ERROR,
            report: Some(format_error(&error)),
        },
        CallbackOutcome::Panicked(message) => StatusReport {
            status: OPENVPN_PLUGIN_FUNC_ERROR,
            report: Some(panic_report("plugin func", message)),
        },
    }
}

/// Translates the outcome of the close callback into the close call's
/// report.
///
/// Close has no status to return: a panic (or an error, should the
/// callback produce one) is reported, and the close always completes.
pub fn dispatch_close(outcome: CallbackOutcome<()>) -> (report: Option<String>)
    ensures
        outcome matches CallbackOutcome::Returned(_) ==> report is None,
        outcome matches CallbackOutcome::Failed(error) ==> (report matches Some(text) && text@
            == error_text(error.msg@, text_views(error.causes@))),
        outcome matches CallbackOutcome::Panicked(message) ==> (report matches Some(text) && text@
            == panic_text("plugin close"@, message_view(message))),
{
    match outcome {
        CallbackOutcome::Returned(_) => None,
        CallbackOutcome::Failed(error) => Some(format_error(&error)),
        CallbackOutcome::Panicked(message) => Some(panic_report("plugin close", message)),
    }
}

} // verus!
