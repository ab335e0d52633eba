//! Bodies of responses, read as the types of the `dap_types` crate.
//!
//! What a body deserialises to is for `dap_types` and `serde_json` to say.
//! Each outcome has a name; the client hands out exactly the named value, or
//! reports that the body does not have the expected shape.
use crate::json::shape_of;
use serde_json::Value;
use vstd::prelude::*;

verus! {

/// `dap_types::Capabilities`: what an adapter declares of itself.
#[verifier::external_type_specification]
#[verifier::external_body]
pub struct ExCapabilities(dap_types::Capabilities);

/// `dap_types::SetBreakpointsResponse`: the breakpoints of a source as the
/// adapter has reconciled them.
#[verifier::external_type_specification]
#[verifier::external_body]
pub struct ExSetBreakpointsResponse(dap_types::SetBreakpointsResponse);

/// `dap_types::ContinueResponse`: the body of the answer to `continue`.
#[verifier::external_type_specification]
#[verifier::external_body]
pub struct ExContinueResponse(dap_types::ContinueResponse);

/// The capabilities that `body` deserialises to, `None` where it does not
/// have their shape.
pub uninterp spec fn capabilities_in(body: Value) -> Option<dap_types::Capabilities>;

/// The reconciled breakpoints that `body` deserialises to, `None` where it
/// does not have their shape.
pub uninterp spec fn breakpoints_in(body: Value) -> Option<dap_types::SetBreakpointsResponse>;

/// The answer to `continue` that `body` deserialises to, `None` where it
/// does not have that shape.
pub uninterp spec fn continued_in(body: Value) -> Option<dap_types::ContinueResponse>;

/// `serde_json::from_value::<dap_types::Capabilities>`.  Equal bodies give
/// the same outcome.
#[verifier::external_body]
pub(crate) fn capabilities_from_json(body: Value) -> (r: Result<
    dap_types::Capabilities,
    serde_json::Error,
>)
    ensures
        match r {
            Ok(c) => capabilities_in(body) == Some(c),
            Err(_) => capabilities_in(body) is None,
        },
{
    serde_json::from_value(body)
}

/// `serde_json::from_value::<dap_types::SetBreakpointsResponse>`.  Equal
/// bodies give the same outcome.
#[verifier::external_body]
pub(crate) fn breakpoints_from_json(body: Value) -> (r: Result<
    dap_types::SetBreakpointsResponse,
    serde_json::Error,
>)
    ensures
        match r {
            Ok(b) => breakpoints_in(body) == Some(b),
            Err(_) => breakpoints_in(body) is None,
        },
{
    serde_json::from_value(body)
}

/// `serde_json::from_value::<dap_types::ContinueResponse>`.  Equal bodies
/// give the same outcome.
#[verifier::external_body]
pub(crate) fn continued_from_json(body: Value) -> (r: Result<
    dap_types::ContinueResponse,
    serde_json::Error,
>)
    ensures
        match r {
            Ok(c) => continued_in(body) == Some(c),
            Err(_) => continued_in(body) is None,
        },
{
    serde_json::from_value(body)
}

/// `serde_json::from_value::<()>`: JSON null deserialises to the unit value
/// and nothing else does.
#[verifier::external_body]
pub(crate) fn unit_from_json(body: Value) -> (r: Result<(), serde_json::Error>)
    ensures
        r is Ok <==> shape_of(body) is Null,
{
    serde_json::from_value(body)
}

/// `Capabilities::clone`: an equal value.
pub assume_specification[ <dap_types::Capabilities as Clone>::clone ](
    c: &dap_types::Capabilities,
) -> (r: dap_types::Capabilities)
    ensures
        r == *c,
;

} // verus!
