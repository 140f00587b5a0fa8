//! Assertions: what a declared expectation says of a response.

use vstd::prelude::*;
use crate::checks::{is_iso8601, is_uuid, iso8601_syntax, uuid_syntax};
use crate::http::{Response, ResponseModel};
use crate::json::{
    json_debug_text, json_text, json_value_to_string, serde_form, JsonModel, JsonValue,
};
use crate::parser::{Assertion, AssertionModel, ReqxFile};
use crate::path::{extract_json_path, query};
use crate::runtime::ExecutionContext;
use crate::text::{
    chars_of, debug_quoted, decimal_chars, decimal_text, has_prefix, occurs_at, push_text, quoted,
    same_text, slice_chars, starts_with, string_of,
};

verus! {
/// The outcome of one assertion.
#[derive(Debug, PartialEq)]
pub struct AssertionResult {
    pub expression: String,
    pub expected: String,
    pub actual: Option<String>,
    pub passed: bool,
    pub message: String,
}

/// What an `AssertionResult` holds.
pub ghost struct OutcomeModel {
    pub expression: Seq<char>,
    pub expected: Seq<char>,
    pub actual: Option<Seq<char>>,
    pub passed: bool,
    pub message: Seq<char>,
}

impl View for AssertionResult {
    type V = OutcomeModel;

    open spec fn view(&self) -> OutcomeModel {
        OutcomeModel {
            expression: self.expression@,
            expected: self.expected@,
            actual: match self.actual {
                Some(text) => Some(text@),
                None => None,
            },
            passed: self.passed,
            message: self.message@,
        }
    }
}

impl Clone for AssertionResult {
    fn clone(&self) -> (r: Self)
        ensures
            r@ == self@,
    {
        AssertionResult {
            expression: self.expression.clone(),
            expected: self.expected.clone(),
            actual: match &self.actual {
                Some(text) => Some(text.clone()),
                None => None,
            },
            passed: self.passed,
            message: self.message.clone(),
        }
    }
}

/// The views of a list of outcomes.
pub open spec fn outcomes_view(results: Seq<AssertionResult>) -> Seq<OutcomeModel> {
    Seq::new(results.len(), |i: int| results[i]@)
}

/// The outcome of `status`: it passes where the status, written in
/// decimal, is the expected text.
pub open spec fn status_outcome(expected: Seq<char>, status: u16) -> OutcomeModel {
    let actual = decimal_text(status as nat);
    let passed = actual == expected;
    OutcomeModel {
        expression: "status"@,
        expected,
        actual: Some(actual),
        passed,
        message: if passed {
            "status = "@ + expected
        } else {
            "status: expected "@ + expected + ", got "@ + actual
        },
    }
}

/// Whether a document is of the kind that a keyword names; `exists` names
/// every kind but null, and a word that is no keyword names none.
pub open spec fn body_is(keyword: Seq<char>, body: JsonModel) -> bool {
    if keyword == "is_array"@ {
        body is Array
    } else if keyword == "is_object"@ {
        body is Object
    } else if keyword == "is_string"@ {
        body is String
    } else if keyword == "is_number"@ {
        body is Number
    } else if keyword == "exists"@ {
        !(body is Null)
    } else {
        false
    }
}

/// The outcome of `body`: the expected text is a keyword, which the whole
/// body has to satisfy.
pub open spec fn whole_body_outcome(expected: Seq<char>, body: JsonModel) -> OutcomeModel {
    let passed = body_is(expected, body);
    OutcomeModel {
        expression: "body"@,
        expected,
        actual: Some(json_debug_text(serde_form(body))),
        passed,
        message: if passed {
            "body "@ + expected
        } else {
            "body: expected "@ + expected
        },
    }
}

/// Whether a value that a path has found meets the expected text: a
/// keyword is checked against the value, and any other text has to be the
/// value's own text.
pub open spec fn value_meets(expected: Seq<char>, value: JsonModel) -> bool {
    if expected == "exists"@ {
        true
    } else if expected == "is_array"@ {
        value is Array
    } else if expected == "is_object"@ {
        value is Object
    } else if expected == "is_string"@ {
        value is String
    } else if expected == "is_number"@ {
        value is Number
    } else if expected == "is_uuid"@ {
        uuid_syntax(json_text(value))
    } else if expected == "is_iso8601"@ {
        iso8601_syntax(json_text(value))
    } else {
        json_text(value) == expected
    }
}

/// The path of an expression into the body: what stands behind `body`, or
/// the whole expression where it does not begin with `body`.
pub open spec fn body_path(expression: Seq<char>) -> Seq<char> {
    if starts_with(expression, "body"@) {
        expression.skip("body"@.len() as int)
    } else {
        expression
    }
}

/// The outcome of a path into the body. Where the path finds a value, the
/// value has to meet the expected text; where it finds none, the assertion
/// passes exactly if `!exists` is expected.
pub open spec fn body_path_outcome(expression: Seq<char>, expected: Seq<char>, body: JsonModel) -> OutcomeModel {
    let found = query(body, body_path(expression));
    let passed = match found {
        Some(value) => value_meets(expected, value),
        None => expected == "!exists"@,
    };
    OutcomeModel {
        expression,
        expected,
        actual: match found {
            Some(value) => Some(json_text(value)),
            None => None,
        },
        passed,
        message: if passed {
            expression + " = "@ + expected
        } else {
            expression + ": expected "@ + expected
        },
    }
}

/// The outcome of a header: what stands behind `headers.` in the
/// expression is the name, as it is given. The assertion passes where the
/// response has the header and its value is the expected text.
pub open spec fn header_outcome(
    expression: Seq<char>,
    expected: Seq<char>,
    headers: Map<Seq<char>, Seq<char>>,
) -> OutcomeModel {
    let name = expression.skip("headers."@.len() as int);
    let actual = if headers.contains_key(name) {
        Some(headers[name])
    } else {
        None
    };
    let passed = actual == Some(expected);
    OutcomeModel {
        expression,
        expected,
        actual,
        passed,
        message: if passed {
            expression + " = "@ + expected
        } else {
            expression + ": expected "@ + expected + ", got "@ + debug_quoted(
                match actual {
                    Some(value) => value,
                    None => Seq::empty(),
                },
            )
        },
    }
}

/// The outcome of an expression that is none of the known forms: it fails,
/// and the message names the expression.
pub open spec fn unknown_outcome(expression: Seq<char>, expected: Seq<char>) -> OutcomeModel {
    OutcomeModel {
        expression,
        expected,
        actual: None,
        passed: false,
        message: "Unknown assertion expression: "@ + expression,
    }
}

/// The outcome of an assertion against a response, by the form of the
/// expression: `status`, `body`, a path into the body, a header, or none of
/// these.
pub open spec fn assertion_outcome(assertion: AssertionModel, response: ResponseModel) -> OutcomeModel {
    let expression = assertion.expression;
    let expected = assertion.expected;
    if expression == "status"@ {
        status_outcome(expected, response.status)
    } else if expression == "body"@ {
        whole_body_outcome(expected, response.body)
    } else if starts_with(expression, "body."@) || starts_with(expression, "body["@) {
        body_path_outcome(expression, expected, response.body)
    } else if starts_with(expression, "headers."@) {
        header_outcome(expression, expected, response.headers)
    } else {
        unknown_outcome(expression, expected)
    }
}

/// The outcomes of a list of assertions against a response, one for each
/// assertion, in order.
pub open spec fn assertion_outcomes(assertions: Seq<AssertionModel>, response: ResponseModel) -> Seq<
    OutcomeModel,
> {
    Seq::new(assertions.len(), |i: int| assertion_outcome(assertions[i], response))
}

/// Whether any of the outcomes is a failure.
pub open spec fn any_failed(outcomes: Seq<OutcomeModel>) -> bool {
    exists|i: int| 0 <= i < outcomes.len() && !(#[trigger] outcomes[i]).passed
}

/// Whether a value that a path has found meets the expected text.
fn check_value(expected: &str, value: &JsonValue, text: &str) -> (r: bool)
    requires
        text@ == json_text(value@),
    ensures
        r == value_meets(expected@, value@),
{
    if same_text(expected, "exists") {
        true
    } else if same_text(expected, "is_array") {
        value.is_array()
    } else if same_text(expected, "is_object") {
        value.is_object()
    } else if same_text(expected, "is_string") {
        value.is_string()
    } else if same_text(expected, "is_number") {
        value.is_number()
    } else if same_text(expected, "is_uuid") {
        is_uuid(text)
    } else if same_text(expected, "is_iso8601") {
        is_iso8601(text)
    } else {
        same_text(text, expected)
    }
}

/// Whether a document is of the kind that a keyword names.
fn check_body(keyword: &str, body: &JsonValue) -> (r: bool)
    ensures
        r == body_is(keyword@, body@),
{
    if same_text(keyword, "is_array") {
        body.is_array()
    } else if same_text(keyword, "is_object") {
        body.is_object()
    } else if same_text(keyword, "is_string") {
        body.is_string()
    } else if same_text(keyword, "is_number") {
        body.is_number()
    } else if same_text(keyword, "exists") {
        !body.is_null()
    } else {
        false
    }
}

impl ExecutionContext {
    /// The outcomes of the descriptor's assertions against a response: one
    /// for each assertion, in order, whatever the outcomes before it are.
    pub fn run_assertions(&self, reqx_file: &ReqxFile, response: &Response) -> (r: Vec<
        AssertionResult,
    >)
        ensures
            outcomes_view(r@) == assertion_outcomes(reqx_file@.assertions, response@),
    {
        let mut results: Vec<AssertionResult> = Vec::new();
        let mut i: usize = 0;
        while i < reqx_file.assertions.len()
            invariant
                i <= reqx_file.assertions.len(),
                results@.len() == i,
                forall|j: int|
                    0 <= j < i ==> (#[trigger] results@[j])@ == assertion_outcome(
                        reqx_file.assertions@[j]@,
                        response@,
                    ),
            decreases reqx_file.assertions.len() - i,
        {
            let result = self.evaluate_assertion(&reqx_file.assertions[i], response);
            results.push(result);
            i += 1;
        }
        results
    }

    /// The outcome of one assertion against a response.
    pub fn evaluate_assertion(&self, assertion: &Assertion, response: &Response) -> (r:
        AssertionResult)
        ensures
            r@ == assertion_outcome(assertion@, response@),
    {
        let expression = assertion.expression.as_str();
        let expected = assertion.expected.as_str();
        let e = chars_of(expression);
        if same_text(expression, "status") {
            let actual = string_of(&decimal_chars(response.status as u64));
            let passed = same_text(actual.as_str(), expected);
            let mut message: Vec<char> = Vec::new();
            if passed {
                push_text(&mut message, "status = ");
                push_text(&mut message, expected);
            } else {
                push_text(&mut message, "status: expected ");
                push_text(&mut message, expected);
                push_text(&mut message, ", got ");
                push_text(&mut message, actual.as_str());
            }
            return AssertionResult {
                expression: assertion.expression.clone(),
                expected: assertion.expected.clone(),
                actual: Some(actual),
                passed,
                message: string_of(&message),
            };
        }
        if same_text(expression, "body") || has_prefix(&e, "body.") || has_prefix(&e, "body[") {
            return self.evaluate_body_assertion(expression, expected, response);
        }
        if has_prefix(&e, "headers.") {
            let skip = chars_of("headers.").len();
            let name = string_of(&slice_chars(&e, skip, e.len()));
            let actual = match response.headers.get(name.as_str()) {
                Some(value) => Some(value.clone()),
                None => None,
            };
            let passed = match &actual {
                Some(value) => same_text(value.as_str(), expected),
                None => false,
            };
            let mut message: Vec<char> = Vec::new();
            push_text(&mut message, expression);
            if passed {
                push_text(&mut message, " = ");
                push_text(&mut message, expected);
            } else {
                push_text(&mut message, ": expected ");
                push_text(&mut message, expected);
                push_text(&mut message, ", got ");
                let shown = match &actual {
                    Some(value) => quoted(value.as_str()),
                    None => quoted(""),
                };
                proof {
                    reveal_strlit("");
                    assert(""@ =~= Seq::<char>::empty());
                }
                push_text(&mut message, shown.as_str());
            }
            return AssertionResult {
                expression: assertion.expression.clone(),
                expected: assertion.expected.clone(),
                actual,
                passed,
                message: string_of(&message),
            };
        }
        let mut message: Vec<char> = Vec::new();
        push_text(&mut message, "Unknown assertion expression: ");
        push_text(&mut message, expression);
        AssertionResult {
            expression: assertion.expression.clone(),
            expected: assertion.expected.clone(),
            actual: None,
            passed: false,
            message: string_of(&message),
        }
    }

    /// The outcome of an assertion on the body: on the whole body where the
    /// expression is `body`, else on what the path behind `body` finds.
    pub fn evaluate_body_assertion(&self, expression: &str, expected: &str, response: &Response) -> (r:
        AssertionResult)
        ensures
            r@ == (if expression@ == "body"@ {
                whole_body_outcome(expected@, response@.body)
            } else {
                body_path_outcome(expression@, expected@, response@.body)
            }),
    {
        if same_text(expression, "body") {
            let passed = check_body(expected, &response.body);
            let mut message: Vec<char> = Vec::new();
            if passed {
                push_text(&mut message, "body ");
            } else {
                push_text(&mut message, "body: expected ");
            }
            push_text(&mut message, expected);
            return AssertionResult {
                expression: expression.to_owned(),
                expected: expected.to_owned(),
                actual: Some(response.body.debug_text()),
                passed,
                message: string_of(&message),
            };
        }
        let e = chars_of(expression);
        let path = if has_prefix(&e, "body") {
            let skip = chars_of("body").len();
            string_of(&slice_chars(&e, skip, e.len()))
        } else {
            string_of(&e)
        };
        let (passed, actual) = match extract_json_path(&response.body, path.as_str()) {
            Some(value) => {
                let text = json_value_to_string(value);
                (check_value(expected, value, text.as_str()), Some(text))
            },
            None => (same_text(expected, "!exists"), None),
        };
        let mut message: Vec<char> = Vec::new();
        push_text(&mut message, expression);
        if passed {
            push_text(&mut message, " = ");
        } else {
            push_text(&mut message, ": expected ");
        }
        push_text(&mut message, expected);
        AssertionResult {
            expression: expression.to_owned(),
            expected: expected.to_owned(),
            actual,
            passed,
            message: string_of(&message),
        }
    }
}

/// A `status` assertion passes exactly where the expected text is the
/// status in decimal. The message of a failure holds the expected text and,
/// at its end, the status.
pub proof fn lemma_status_assertion(expected: Seq<char>, response: ResponseModel)
    ensures
        ({
            let outcome = assertion_outcome(
                AssertionModel { expression: "status"@, expected },
                response,
            );
            let status = decimal_text(response.status as nat);
            &&& outcome.passed <==> expected == status
            &&& outcome.actual == Some(status)
            &&& !outcome.passed ==> occurs_at(
                outcome.message,
                expected,
                "status: expected "@.len() as int,
            )
            &&& !outcome.passed ==> occurs_at(
                outcome.message,
                status,
                outcome.message.len() - status.len(),
            )
        }),
{
    let outcome = assertion_outcome(AssertionModel { expression: "status"@, expected }, response);
    let status = decimal_text(response.status as nat);
    if !outcome.passed {
        let head = "status: expected "@;
        assert(outcome.message.subrange(head.len() as int, (head.len() + expected.len()) as int)
            == expected);
        assert(outcome.message.subrange(
            outcome.message.len() - status.len(),
            outcome.message.len() as int,
        ) == status);
    }
}

/// An expression that is a path into the body is neither `status` nor
/// `body`, and its path is what stands behind `body`.
pub proof fn lemma_path_expression(expression: Seq<char>)
    requires
        starts_with(expression, "body."@) || starts_with(expression, "body["@),
    ensures
        expression != "status"@,
        expression != "body"@,
        expression.len() > 0,
        body_path(expression) == expression.skip(4),
{
    reveal_strlit("status");
    reveal_strlit("body");
    reveal_strlit("body.");
    reveal_strlit("body[");
    if starts_with(expression, "body."@) {
        assert(expression.subrange(0, 5)[0] == 'b');
    } else {
        assert(expression.subrange(0, 5)[0] == 'b');
    }
    assert(expression.subrange(0, 4) =~= "body"@);
}

/// Where the path of a body assertion finds nothing, the assertion passes
/// exactly if `!exists` is expected; it has no actual value, and it fails
/// if `exists` is expected.
pub proof fn lemma_missing_path(assertion: AssertionModel, response: ResponseModel)
    requires
        starts_with(assertion.expression, "body."@) || starts_with(assertion.expression, "body["@),
        query(response.body, body_path(assertion.expression)) is None,
    ensures
        assertion_outcome(assertion, response).passed <==> assertion.expected == "!exists"@,
        assertion_outcome(assertion, response).actual is None,
        assertion.expected == "exists"@ ==> !assertion_outcome(assertion, response).passed,
{
    lemma_path_expression(assertion.expression);
    reveal_strlit("exists");
    reveal_strlit("!exists");
}

/// Where the path of a body assertion finds a value and `exists` is
/// expected, the assertion passes.
pub proof fn lemma_found_path_exists(assertion: AssertionModel, response: ResponseModel)
    requires
        starts_with(assertion.expression, "body."@) || starts_with(assertion.expression, "body["@),
        query(response.body, body_path(assertion.expression)) is Some,
        assertion.expected == "exists"@,
    ensures
        assertion_outcome(assertion, response).passed,
{
    lemma_path_expression(assertion.expression);
}

/// The message of an outcome is never empty.
pub proof fn lemma_message_not_empty(assertion: AssertionModel, response: ResponseModel)
    ensures
        assertion_outcome(assertion, response).message.len() > 0,
{
    reveal_strlit("status = ");
    reveal_strlit("status: expected ");
    reveal_strlit("body ");
    reveal_strlit("body: expected ");
    reveal_strlit("Unknown assertion expression: ");
    reveal_strlit("headers.");
    reveal_strlit("body.");
    reveal_strlit("body[");
    let expression = assertion.expression;
}

/// Every assertion of a list has its outcome, in the order of the list,
/// whatever the other outcomes are.
pub proof fn lemma_every_assertion_has_its_outcome(
    assertions: Seq<AssertionModel>,
    response: ResponseModel,
    i: int,
)
    requires
        0 <= i < assertions.len(),
    ensures
        assertion_outcomes(assertions, response).len() == assertions.len(),
        assertion_outcomes(assertions, response)[i] == assertion_outcome(assertions[i], response),
{
}

} // verus!
