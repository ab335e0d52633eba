//! Arguments of the requests that the client issues, and their JSON form.
//!
//! The argument shapes are those of the `dap_types` crate, which also owns
//! their JSON form.  The client fills in values of the types below; the
//! functions at the end of this file hand them to `dap_types` and
//! `serde_json`.  What those two write is not restated here: each result has
//! a name, and a request carries exactly the named value.
use crate::json::shape_of;
use serde_json::Value;
use vstd::prelude::*;

verus! {

/// `dap_types::SourceBreakpoint`: one breakpoint of a `setBreakpoints`
/// request.  The client hands it on as the caller made it.
#[verifier::external_type_specification]
#[verifier::external_body]
pub struct ExSourceBreakpoint(dap_types::SourceBreakpoint);

/// `dap_types::Source`: a source descriptor.  The client names none inside
/// another.
#[verifier::external_type_specification]
#[verifier::external_body]
pub struct ExSource(dap_types::Source);

/// `dap_types::SourcePresentationHint`: how a source is to be shown.
#[verifier::external_type_specification]
#[verifier::external_body]
pub struct ExSourcePresentationHint(dap_types::SourcePresentationHint);

/// `dap_types::Checksum`: a checksum of a source's content.
#[verifier::external_type_specification]
#[verifier::external_body]
pub struct ExChecksum(dap_types::Checksum);

/// How the client writes paths.
#[derive(Clone, Copy, Debug, PartialEq, Eq, Structural)]
pub enum PathFormat {
    Path,
    Uri,
}

/// How far one step goes.
#[derive(Clone, Copy, Debug, PartialEq, Eq, Structural)]
pub enum SteppingGranularity {
    Statement,
    Line,
    Instruction,
}

/// Arguments of `initialize`: who the client is and what it supports.
#[derive(Clone, Debug, PartialEq, Eq)]
pub struct InitializeArguments {
    pub client_id: Option<String>,
    pub client_name: Option<String>,
    pub adapter_id: String,
    pub locale: Option<String>,
    pub lines_start_at1: Option<bool>,
    pub columns_start_at1: Option<bool>,
    pub path_format: Option<PathFormat>,
    pub supports_variable_type: Option<bool>,
    pub supports_variable_paging: Option<bool>,
    pub supports_run_in_terminal_request: Option<bool>,
    pub supports_memory_references: Option<bool>,
    pub supports_progress_reporting: Option<bool>,
    pub supports_invalidated_event: Option<bool>,
    pub supports_memory_event: Option<bool>,
    pub supports_args_can_be_interpreted_by_shell: Option<bool>,
    pub supports_start_debugging_request: Option<bool>,
}

pub struct InitializeArgumentsView {
    pub client_id: Option<Seq<char>>,
    pub client_name: Option<Seq<char>>,
    pub adapter_id: Seq<char>,
    pub locale: Option<Seq<char>>,
    pub lines_start_at1: Option<bool>,
    pub columns_start_at1: Option<bool>,
    pub path_format: Option<PathFormat>,
    pub supports_variable_type: Option<bool>,
    pub supports_variable_paging: Option<bool>,
    pub supports_run_in_terminal_request: Option<bool>,
    pub supports_memory_references: Option<bool>,
    pub supports_progress_reporting: Option<bool>,
    pub supports_invalidated_event: Option<bool>,
    pub supports_memory_event: Option<bool>,
    pub supports_args_can_be_interpreted_by_shell: Option<bool>,
    pub supports_start_debugging_request: Option<bool>,
}

/// The text of an optional string.
pub open spec fn text_of(s: Option<String>) -> Option<Seq<char>> {
    match s {
        Some(s) => Some(s@),
        None => None,
    }
}

impl View for InitializeArguments {
    type V = InitializeArgumentsView;

    open spec fn view(&self) -> InitializeArgumentsView {
        InitializeArgumentsView {
            client_id: text_of(self.client_id),
            client_name: text_of(self.client_name),
            adapter_id: self.adapter_id@,
            locale: text_of(self.locale),
            lines_start_at1: self.lines_start_at1,
            columns_start_at1: self.columns_start_at1,
            path_format: self.path_format,
            supports_variable_type: self.supports_variable_type,
            supports_variable_paging: self.supports_variable_paging,
            supports_run_in_terminal_request: self.supports_run_in_terminal_request,
            supports_memory_references: self.supports_memory_references,
            supports_progress_reporting: self.supports_progress_reporting,
            supports_invalidated_event: self.supports_invalidated_event,
            supports_memory_event: self.supports_memory_event,
            supports_args_can_be_interpreted_by_shell: self.supports_args_can_be_interpreted_by_shell,
            supports_start_debugging_request: self.supports_start_debugging_request,
        }
    }
}

/// Arguments of `continue`.
#[derive(Clone, Copy, Debug, PartialEq, Eq, Structural)]
pub struct ContinueArguments {
    pub thread_id: u64,
    pub single_thread: Option<bool>,
}

/// Arguments of `next`, `stepOut` and `stepBack`.
#[derive(Clone, Copy, Debug, PartialEq, Eq, Structural)]
pub struct StepArguments {
    pub thread_id: u64,
    pub single_thread: Option<bool>,
    pub granularity: Option<SteppingGranularity>,
}

/// Arguments of `stepIn`.
#[derive(Clone, Copy, Debug, PartialEq, Eq, Structural)]
pub struct StepInArguments {
    pub thread_id: u64,
    pub single_thread: Option<bool>,
    pub target_id: Option<u64>,
    pub granularity: Option<SteppingGranularity>,
}

/// Arguments of `pause`.
#[derive(Clone, Copy, Debug, PartialEq, Eq, Structural)]
pub struct PauseArguments {
    pub thread_id: u64,
}

/// Arguments of `configurationDone`: there are none.
#[derive(Clone, Copy, Debug, PartialEq, Eq, Structural)]
pub struct ConfigurationDoneArguments;

/// A source file, as a request names it.
#[derive(Clone, Debug)]
pub struct SourceDescriptor {
    pub name: Option<String>,
    pub path: Option<String>,
    pub source_reference: Option<u64>,
    pub presentation_hint: Option<dap_types::SourcePresentationHint>,
    pub origin: Option<String>,
    pub sources: Option<Vec<dap_types::Source>>,
    pub adapter_data: Option<Value>,
    pub checksums: Option<Vec<dap_types::Checksum>>,
}

pub struct SourceDescriptorView {
    pub name: Option<Seq<char>>,
    pub path: Option<Seq<char>>,
    pub source_reference: Option<u64>,
    pub presentation_hint: Option<dap_types::SourcePresentationHint>,
    pub origin: Option<Seq<char>>,
    pub sources: Option<Seq<dap_types::Source>>,
    pub adapter_data: Option<Value>,
    pub checksums: Option<Seq<dap_types::Checksum>>,
}

/// The items of an optional list.
pub open spec fn items_of<T>(list: Option<Vec<T>>) -> Option<Seq<T>> {
    match list {
        Some(l) => Some(l@),
        None => None,
    }
}

impl View for SourceDescriptor {
    type V = SourceDescriptorView;

    open spec fn view(&self) -> SourceDescriptorView {
        SourceDescriptorView {
            name: text_of(self.name),
            path: text_of(self.path),
            source_reference: self.source_reference,
            presentation_hint: self.presentation_hint,
            origin: text_of(self.origin),
            sources: items_of(self.sources),
            adapter_data: self.adapter_data,
            checksums: items_of(self.checksums),
        }
    }
}

/// Arguments of `setBreakpoints`.
#[derive(Clone, Debug)]
pub struct SetBreakpointsArguments {
    pub source: SourceDescriptor,
    pub breakpoints: Option<Vec<dap_types::SourceBreakpoint>>,
    pub lines: Option<Vec<u64>>,
    pub source_modified: Option<bool>,
}

pub struct SetBreakpointsArgumentsView {
    pub source: SourceDescriptorView,
    pub breakpoints: Option<Seq<dap_types::SourceBreakpoint>>,
    pub lines: Option<Seq<u64>>,
    pub source_modified: Option<bool>,
}

impl View for SetBreakpointsArguments {
    type V = SetBreakpointsArgumentsView;

    open spec fn view(&self) -> SetBreakpointsArgumentsView {
        SetBreakpointsArgumentsView {
            source: self.source@,
            breakpoints: items_of(self.breakpoints),
            lines: items_of(self.lines),
            source_modified: self.source_modified,
        }
    }
}

/// The breakpoints of the source file at `path`: the source is named by its
/// path and by nothing else, and the request says nothing of bare lines or
/// of a modified source.
pub open spec fn breakpoints_at(
    path: Seq<char>,
    breakpoints: Option<Seq<dap_types::SourceBreakpoint>>,
) -> SetBreakpointsArgumentsView {
    SetBreakpointsArgumentsView {
        source: SourceDescriptorView {
            name: None,
            path: Some(path),
            source_reference: None,
            presentation_hint: None,
            origin: None,
            sources: None,
            adapter_data: None,
            checksums: None,
        },
        breakpoints,
        lines: None,
        source_modified: None,
    }
}

/// The arguments of `setBreakpoints` for the source file at `path`.
pub fn set_breakpoints_arguments(
    path: &str,
    breakpoints: Option<Vec<dap_types::SourceBreakpoint>>,
) -> (a: SetBreakpointsArguments)
    ensures
        a@ == breakpoints_at(path@, items_of(breakpoints)),
{
    SetBreakpointsArguments {
        source: SourceDescriptor {
            name: None,
            path: Some(path.to_owned()),
            source_reference: None,
            presentation_hint: None,
            origin: None,
            sources: None,
            adapter_data: None,
            checksums: None,
        },
        breakpoints,
        lines: None,
        source_modified: None,
    }
}

/// What the client declares of itself to the adapter `adapter_id`.
pub open spec fn client_declaration(adapter_id: Seq<char>) -> InitializeArgumentsView {
    InitializeArgumentsView {
        client_id: Some("zed"@),
        client_name: Some("Zed"@),
        adapter_id,
        locale: Some("en-us"@),
        lines_start_at1: Some(true),
        columns_start_at1: Some(true),
        path_format: Some(PathFormat::Path),
        supports_variable_type: Some(true),
        supports_variable_paging: Some(false),
        supports_run_in_terminal_request: Some(false),
        supports_memory_references: Some(false),
        supports_progress_reporting: Some(false),
        supports_invalidated_event: Some(false),
        supports_memory_event: None,
        supports_args_can_be_interpreted_by_shell: None,
        supports_start_debugging_request: None,
    }
}

/// The arguments of `initialize` for the adapter `adapter_id`: the client's
/// names, locale `en-us`, paths as paths, lines and columns counted from 1,
/// variable types supported, and variable paging, run-in-terminal, memory
/// references, progress reporting and the invalidated event all declared
/// unsupported.
pub fn initialize_arguments(adapter_id: &str) -> (a: InitializeArguments)
    ensures
        a@ == client_declaration(adapter_id@),
{
    InitializeArguments {
        client_id: Some("zed".to_owned()),
        client_name: Some("Zed".to_owned()),
        adapter_id: adapter_id.to_owned(),
        locale: Some("en-us".to_owned()),
        lines_start_at1: Some(true),
        columns_start_at1: Some(true),
        path_format: Some(PathFormat::Path),
        supports_variable_type: Some(true),
        supports_variable_paging: Some(false),
        supports_run_in_terminal_request: Some(false),
        supports_memory_references: Some(false),
        supports_progress_reporting: Some(false),
        supports_invalidated_event: Some(false),
        supports_memory_event: None,
        supports_args_can_be_interpreted_by_shell: None,
        supports_start_debugging_request: None,
    }
}

/// One step of the thread `thread_id`, a statement at a time.
pub fn step_arguments(thread_id: u64) -> (a: StepArguments)
    ensures
        a == (StepArguments {
            thread_id,
            single_thread: None,
            granularity: Some(SteppingGranularity::Statement),
        }),
{
    StepArguments { thread_id, single_thread: None, granularity: Some(SteppingGranularity::Statement) }
}

/// One step into a call on the thread `thread_id`, a statement at a time,
/// with no target chosen.
pub fn step_in_arguments(thread_id: u64) -> (a: StepInArguments)
    ensures
        a == (StepInArguments {
            thread_id,
            single_thread: None,
            target_id: None,
            granularity: Some(SteppingGranularity::Statement),
        }),
{
    StepInArguments {
        thread_id,
        single_thread: None,
        target_id: None,
        granularity: Some(SteppingGranularity::Statement),
    }
}

/// The JSON form that `dap_types` gives to the arguments of `initialize`.
pub uninterp spec fn initialize_json(a: InitializeArgumentsView) -> Option<Value>;

/// The JSON form that `dap_types` gives to the arguments of `continue`.
pub uninterp spec fn continue_json(a: ContinueArguments) -> Option<Value>;

/// The JSON form that `dap_types` gives to the arguments of `next`.
pub uninterp spec fn next_json(a: StepArguments) -> Option<Value>;

/// The JSON form that `dap_types` gives to the arguments of `stepIn`.
pub uninterp spec fn step_in_json(a: StepInArguments) -> Option<Value>;

/// The JSON form that `dap_types` gives to the arguments of `stepOut`.
pub uninterp spec fn step_out_json(a: StepArguments) -> Option<Value>;

/// The JSON form that `dap_types` gives to the arguments of `stepBack`.
pub uninterp spec fn step_back_json(a: StepArguments) -> Option<Value>;

/// The JSON form that `dap_types` gives to the arguments of `pause`.
pub uninterp spec fn pause_json(a: PauseArguments) -> Option<Value>;

/// The JSON form that `dap_types` gives to the arguments of `launch`.
pub uninterp spec fn launch_json(custom: Value) -> Option<Value>;

/// The JSON form that `dap_types` gives to the arguments of
/// `configurationDone`.
pub uninterp spec fn configuration_done_json(a: ConfigurationDoneArguments) -> Option<Value>;

/// The JSON form that `dap_types` gives to the arguments of
/// `setBreakpoints`.
pub uninterp spec fn set_breakpoints_json(a: SetBreakpointsArgumentsView) -> Option<Value>;

/// `serde_json::to_value` of a `dap_types::InitializeRequestArguments` with
/// the fields of `a`, one for one.  Equal arguments give the same outcome.
#[verifier::external_body]
pub(crate) fn initialize_to_json(a: InitializeArguments) -> (r: Result<Value, serde_json::Error>)
    ensures
        match r {
            Ok(v) => initialize_json(a@) == Some(v),
            Err(_) => initialize_json(a@) is None,
        },
{
    let path_format = a.path_format.map(|f| match f {
        PathFormat::Path => dap_types::InitializeRequestArgumentsPathFormat::Path,
        PathFormat::Uri => dap_types::InitializeRequestArgumentsPathFormat::Uri,
    });
    serde_json::to_value(dap_types::InitializeRequestArguments {
        client_id: a.client_id, client_name: a.client_name, adapter_id: a.adapter_id,
        locale: a.locale, lines_start_at1: a.lines_start_at1, path_format,
        columns_start_at1: a.columns_start_at1, supports_variable_type: a.supports_variable_type,
        supports_variable_paging: a.supports_variable_paging, supports_run_in_terminal_request: a.supports_run_in_terminal_request,
        supports_memory_references: a.supports_memory_references, supports_progress_reporting: a.supports_progress_reporting,
        supports_invalidated_event: a.supports_invalidated_event, supports_memory_event: a.supports_memory_event,
        supports_args_can_be_interpreted_by_shell: a.supports_args_can_be_interpreted_by_shell,
        supports_start_debugging_request: a.supports_start_debugging_request,
    })
}

/// `serde_json::to_value` of a `dap_types::ContinueArguments` with the
/// fields of `a`.  Equal arguments give the same outcome.
#[verifier::external_body]
pub(crate) fn continue_to_json(a: ContinueArguments) -> (r: Result<Value, serde_json::Error>)
    ensures
        match r {
            Ok(v) => continue_json(a) == Some(v),
            Err(_) => continue_json(a) is None,
        },
{
    serde_json::to_value(dap_types::ContinueArguments {
        thread_id: a.thread_id,
        single_thread: a.single_thread,
    })
}

/// `serde_json::to_value` of a `dap_types::NextArguments` with the fields of
/// `a`.  Equal arguments give the same outcome.
#[verifier::external_body]
pub(crate) fn next_to_json(a: StepArguments) -> (r: Result<Value, serde_json::Error>)
    ensures
        match r {
            Ok(v) => next_json(a) == Some(v),
            Err(_) => next_json(a) is None,
        },
{
    serde_json::to_value(dap_types::NextArguments {
        thread_id: a.thread_id,
        single_thread: a.single_thread,
        granularity: a.granularity.map(|g| match g {
            SteppingGranularity::Statement => dap_types::SteppingGranularity::Statement,
            SteppingGranularity::Line => dap_types::SteppingGranularity::Line,
            SteppingGranularity::Instruction => dap_types::SteppingGranularity::Instruction,
        }),
    })
}

/// `serde_json::to_value` of a `dap_types::StepInArguments` with the fields
/// of `a`.  Equal arguments give the same outcome.
#[verifier::external_body]
pub(crate) fn step_in_to_json(a: StepInArguments) -> (r: Result<Value, serde_json::Error>)
    ensures
        match r {
            Ok(v) => step_in_json(a) == Some(v),
            Err(_) => step_in_json(a) is None,
        },
{
    serde_json::to_value(dap_types::StepInArguments {
        thread_id: a.thread_id,
        single_thread: a.single_thread,
        target_id: a.target_id,
        granularity: a.granularity.map(|g| match g {
            SteppingGranularity::Statement => dap_types::SteppingGranularity::Statement,
            SteppingGranularity::Line => dap_types::SteppingGranularity::Line,
            SteppingGranularity::Instruction => dap_types::SteppingGranularity::Instruction,
        }),
    })
}

/// `serde_json::to_value` of a `dap_types::StepOutArguments` with the fields
/// of `a`.  Equal arguments give the same outcome.
#[verifier::external_body]
pub(crate) fn step_out_to_json(a: StepArguments) -> (r: Result<Value, serde_json::Error>)
    ensures
        match r {
            Ok(v) => step_out_json(a) == Some(v),
            Err(_) => step_out_json(a) is None,
        },
{
    serde_json::to_value(dap_types::StepOutArguments {
        thread_id: a.thread_id,
        single_thread: a.single_thread,
        granularity: a.granularity.map(|g| match g {
            SteppingGranularity::Statement => dap_types::SteppingGranularity::Statement,
            SteppingGranularity::Line => dap_types::SteppingGranularity::Line,
            SteppingGranularity::Instruction => dap_types::SteppingGranularity::Instruction,
        }),
    })
}

/// `serde_json::to_value` of a `dap_types::StepBackArguments` with the
/// fields of `a`.  Equal arguments give the same outcome.
#[verifier::external_body]
pub(crate) fn step_back_to_json(a: StepArguments) -> (r: Result<Value, serde_json::Error>)
    ensures
        match r {
            Ok(v) => step_back_json(a) == Some(v),
            Err(_) => step_back_json(a) is None,
        },
{
    serde_json::to_value(dap_types::StepBackArguments {
        thread_id: a.thread_id,
        single_thread: a.single_thread,
        granularity: a.granularity.map(|g| match g {
            SteppingGranularity::Statement => dap_types::SteppingGranularity::Statement,
            SteppingGranularity::Line => dap_types::SteppingGranularity::Line,
            SteppingGranularity::Instruction => dap_types::SteppingGranularity::Instruction,
        }),
    })
}

/// `serde_json::to_value` of a `dap_types::PauseArguments` with the thread
/// of `a`.  Equal arguments give the same outcome.
#[verifier::external_body]
pub(crate) fn pause_to_json(a: PauseArguments) -> (r: Result<Value, serde_json::Error>)
    ensures
        match r {
            Ok(v) => pause_json(a) == Some(v),
            Err(_) => pause_json(a) is None,
        },
{
    serde_json::to_value(dap_types::PauseArguments { thread_id: a.thread_id })
}

/// `serde_json::to_value` of a `dap_types::LaunchRequestArguments` that
/// holds `custom`.  The type is transparent to `serde`, so what is written
/// is `custom` itself.
#[verifier::external_body]
pub(crate) fn launch_to_json(custom: Value) -> (r: Result<Value, serde_json::Error>)
    ensures
        match r {
            Ok(v) => launch_json(custom) == Some(v) && v == custom,
            Err(_) => launch_json(custom) is None,
        },
{
    serde_json::to_value(dap_types::LaunchRequestArguments { raw: custom })
}

/// `serde_json::to_value` of `dap_types::ConfigurationDoneArguments`, a unit
/// struct: what is written is JSON null.
#[verifier::external_body]
pub(crate) fn configuration_done_to_json(a: ConfigurationDoneArguments) -> (r: Result<
    Value,
    serde_json::Error,
>)
    ensures
        match r {
            Ok(v) => configuration_done_json(a) == Some(v) && shape_of(v) is Null,
            Err(_) => configuration_done_json(a) is None,
        },
{
    serde_json::to_value(dap_types::ConfigurationDoneArguments)
}

/// `serde_json::to_value` of a `dap_types::SetBreakpointsArguments` with
/// the fields of `a` and of its source, one for one.  Equal arguments give
/// the same outcome.
#[verifier::external_body]
pub(crate) fn set_breakpoints_to_json(a: SetBreakpointsArguments) -> (r: Result<
    Value,
    serde_json::Error,
>)
    ensures
        match r {
            Ok(v) => set_breakpoints_json(a@) == Some(v),
            Err(_) => set_breakpoints_json(a@) is None,
        },
{
    let s = a.source;
    let source = dap_types::Source {
        name: s.name, path: s.path, source_reference: s.source_reference,
        presentation_hint: s.presentation_hint, origin: s.origin, sources: s.sources,
        adapter_data: s.adapter_data, checksums: s.checksums,
    };
    serde_json::to_value(dap_types::SetBreakpointsArguments {
        source, breakpoints: a.breakpoints, lines: a.lines, source_modified: a.source_modified,
    })
}

} // verus!
