//! The steps of a run that need no network: what follows a response, what
//! follows a failure, and what the results of a run add up to.

use vstd::prelude::*;
use std::path::PathBuf;
use std::time::Duration;
use crate::http::{error_text, RequestError, Response};
use crate::parser::ReqxFile;
use crate::runtime::assertions::{
    any_failed, assertion_outcomes, outcomes_view, AssertionResult, OutcomeModel,
};
use crate::runtime::capture::scope_after_captures;
use crate::runtime::ExecutionContext;
use crate::text::{push_text, string_of};

verus! {
/// `std::path::PathBuf`, carried through as it is.
#[verifier::external_type_specification]
#[verifier::external_body]
pub struct ExPathBuf(PathBuf);

/// What one descriptor of a run came to.
#[derive(Debug)]
pub struct ExecutionResult {
    pub file: PathBuf,
    pub method: String,
    pub url: String,
    pub status: Option<u16>,
    pub duration: Duration,
    pub assertions: Vec<AssertionResult>,
    pub failed: bool,
    pub error: Option<String>,
}

/// What a report reads of an `ExecutionResult`; the file and the duration
/// are shown as the outside gives them.
pub ghost struct ResultModel {
    pub method: Seq<char>,
    pub url: Seq<char>,
    pub status: Option<u16>,
    pub outcomes: Seq<OutcomeModel>,
    pub failed: bool,
    pub error: Option<Seq<char>>,
}

impl View for ExecutionResult {
    type V = ResultModel;

    open spec fn view(&self) -> ResultModel {
        ResultModel {
            method: self.method@,
            url: self.url@,
            status: self.status,
            outcomes: outcomes_view(self.assertions@),
            failed: self.failed,
            error: text_view(self.error),
        }
    }
}

/// The view of an optional text.
pub open spec fn text_view(text: Option<String>) -> Option<Seq<char>> {
    match text {
        Some(t) => Some(t@),
        None => None,
    }
}

/// Whether any of the results is a failure.
pub fn has_failure(results: &Vec<AssertionResult>) -> (r: bool)
    ensures
        r == any_failed(outcomes_view(results@)),
{
    let mut i: usize = 0;
    while i < results.len()
        invariant
            i <= results.len(),
            forall|j: int| 0 <= j < i ==> (#[trigger] outcomes_view(results@)[j]).passed,
        decreases results.len() - i,
    {
        if !results[i].passed {
            assert(!outcomes_view(results@)[i as int].passed);
            return true;
        }
        i += 1;
    }
    false
}

impl ExecutionResult {
    /// The result of a descriptor whose variables could not be
    /// interpolated: failed, without status and assertions, with the method
    /// and the URL as they were declared.
    pub fn interpolation_failed(file: PathBuf, reqx_file: &ReqxFile, duration: Duration, detail: &str) -> (r:
        Self)
        ensures
            r.file == file,
            r.duration == duration,
            r.method@ == reqx_file@.method,
            r.url@ == reqx_file@.url,
            r.status is None,
            r.assertions@.len() == 0,
            r.failed,
            text_view(r.error) == Some("Interpolation error: "@ + detail@),
    {
        let mut message: Vec<char> = Vec::new();
        push_text(&mut message, "Interpolation error: ");
        push_text(&mut message, detail);
        ExecutionResult {
            file,
            method: reqx_file.request.method.clone(),
            url: reqx_file.request.url.clone(),
            status: None,
            duration,
            assertions: Vec::new(),
            failed: true,
            error: Some(string_of(&message)),
        }
    }

    /// The result of a descriptor whose request got no response: failed,
    /// without status and assertions, with the URL as it was sent.
    pub fn request_failed(
        file: PathBuf,
        interpolated: &ReqxFile,
        duration: Duration,
        error: &RequestError,
    ) -> (r: Self)
        ensures
            r.file == file,
            r.duration == duration,
            r.method@ == interpolated@.method,
            r.url@ == interpolated@.url,
            r.status is None,
            r.assertions@.len() == 0,
            r.failed,
            text_view(r.error) == Some("HTTP error: "@ + error_text(*error)),
    {
        let mut message: Vec<char> = Vec::new();
        push_text(&mut message, "HTTP error: ");
        push_text(&mut message, error.message().as_str());
        ExecutionResult {
            file,
            method: interpolated.request.method.clone(),
            url: interpolated.request.url.clone(),
            status: None,
            duration,
            assertions: Vec::new(),
            failed: true,
            error: Some(string_of(&message)),
        }
    }
}

impl ExecutionContext {
    /// What follows a response: every assertion of the descriptor is
    /// evaluated; the result has failed if any of them has; and only where
    /// none has, the capture scripts run and store their values in the
    /// scope.
    pub fn conclude(
        &mut self,
        file: PathBuf,
        interpolated: &ReqxFile,
        response: &Response,
        duration: Duration,
    ) -> (r: ExecutionResult)
        ensures
            r.file == file,
            r.duration == duration,
            r.method@ == interpolated@.method,
            r.url@ == interpolated@.url,
            r.status == Some(response.status),
            outcomes_view(r.assertions@) == assertion_outcomes(interpolated@.assertions, response@),
            r.failed == any_failed(assertion_outcomes(interpolated@.assertions, response@)),
            r.error is None,
            final(self).variables@ == (if r.failed {
                old(self).variables@
            } else {
                scope_after_captures(old(self).variables@, interpolated@.post_response, response@)
            }),
            final(self).environment == old(self).environment,
            final(self).config == old(self).config,
    {
        let assertions = self.run_assertions(interpolated, response);
        let failed = has_failure(&assertions);
        if !failed {
            let _ = self.run_post_response(interpolated, response);
        }
        ExecutionResult {
            file,
            method: interpolated.request.method.clone(),
            url: interpolated.request.url.clone(),
            status: Some(response.status),
            duration,
            assertions,
            failed,
            error: None,
        }
    }
}

/// Whether the requests that are left in the queue are skipped after a
/// result: after a failure, where the run is to stop at the first one.
pub fn stops_run(result: &ExecutionResult, fail_fast: bool) -> (r: bool)
    ensures
        r == (result.failed && fail_fast),
{
    result.failed && fail_fast
}

/// The number of failures among the first `count` results.
pub open spec fn failures_among(results: Seq<ExecutionResult>, count: int) -> nat
    decreases count,
{
    if count <= 0 {
        0
    } else {
        failures_among(results, count - 1) + (if results[count - 1].failed {
            1nat
        } else {
            0nat
        })
    }
}

/// There are no more failures than results.
pub proof fn lemma_failures_among(results: Seq<ExecutionResult>, count: int)
    requires
        0 <= count,
    ensures
        failures_among(results, count) <= count,
    decreases count,
{
    if count > 0 {
        lemma_failures_among(results, count - 1);
    }
}

/// What the results of a run add up to.
#[derive(Debug, Clone, Copy, PartialEq, Eq, Structural)]
pub struct RunSummary {
    pub total: usize,
    pub passed: usize,
    pub failed: usize,
}

/// What the results of a run add up to: how many there are, how many have
/// failed, and how many have not.
pub fn summarize(results: &[ExecutionResult]) -> (r: RunSummary)
    ensures
        r.total == results@.len(),
        r.failed == failures_among(results@, results@.len() as int),
        r.passed == r.total - r.failed,
{
    let mut failed: usize = 0;
    let mut i: usize = 0;
    while i < results.len()
        invariant
            i <= results.len(),
            failed == failures_among(results@, i as int),
            failed <= i,
        decreases results.len() - i,
    {
        if results[i].failed {
            failed += 1;
        }
        i += 1;
    }
    RunSummary { total: results.len(), passed: results.len() - failed, failed }
}

/// The exit code of a run: 1 where a result has failed, 0 where none has.
pub fn exit_code(results: &[ExecutionResult]) -> (r: i32)
    ensures
        r == (if failures_among(results@, results@.len() as int) > 0 {
            1i32
        } else {
            0i32
        }),
{
    if summarize(results).failed > 0 {
        1
    } else {
        0
    }
}

} // verus!
