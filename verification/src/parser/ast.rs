//! The vocabulary of expressions: path roots, operators and validation
//! functions.

use vstd::prelude::*;
pub use crate::path::PathSegment;
use crate::text::same_text;

verus! {
/// What a path starts from.
#[derive(Debug, Clone, Copy, PartialEq, Eq, Structural)]
pub enum PathRoot {
    /// The response.
    Res,
    /// The response body.
    Body,
    /// The response headers.
    Headers,
    /// The response status.
    Status,
}

/// A path: a root and the segments that lead on from it.
#[derive(Debug)]
pub struct PathExpr {
    pub root: PathRoot,
    pub segments: Vec<PathSegment>,
}

/// A comparison between two values.
#[derive(Debug, Clone, Copy, PartialEq, Eq, Structural)]
pub enum BinaryOperator {
    Equals,
    NotEquals,
    LessThan,
    GreaterThan,
    LessOrEqual,
    GreaterOrEqual,
    Contains,
    Matches,
}

/// The operator that a text writes: `=` and `==` both write equality.
pub open spec fn operator_named(s: Seq<char>) -> Option<BinaryOperator> {
    if s == "="@ || s == "=="@ {
        Some(BinaryOperator::Equals)
    } else if s == "!="@ {
        Some(BinaryOperator::NotEquals)
    } else if s == "<"@ {
        Some(BinaryOperator::LessThan)
    } else if s == ">"@ {
        Some(BinaryOperator::GreaterThan)
    } else if s == "<="@ {
        Some(BinaryOperator::LessOrEqual)
    } else if s == ">="@ {
        Some(BinaryOperator::GreaterOrEqual)
    } else if s == "contains"@ {
        Some(BinaryOperator::Contains)
    } else if s == "matches"@ {
        Some(BinaryOperator::Matches)
    } else {
        None
    }
}

/// The text that writes an operator.
pub open spec fn operator_text(op: BinaryOperator) -> Seq<char> {
    match op {
        BinaryOperator::Equals => "="@,
        BinaryOperator::NotEquals => "!="@,
        BinaryOperator::LessThan => "<"@,
        BinaryOperator::GreaterThan => ">"@,
        BinaryOperator::LessOrEqual => "<="@,
        BinaryOperator::GreaterOrEqual => ">="@,
        BinaryOperator::Contains => "contains"@,
        BinaryOperator::Matches => "matches"@,
    }
}

impl BinaryOperator {
    /// The operator that `s` writes.
    pub fn from_str(s: &str) -> (r: Option<Self>)
        ensures
            r == operator_named(s@),
    {
        if same_text(s, "=") || same_text(s, "==") {
            Some(BinaryOperator::Equals)
        } else if same_text(s, "!=") {
            Some(BinaryOperator::NotEquals)
        } else if same_text(s, "<") {
            Some(BinaryOperator::LessThan)
        } else if same_text(s, ">") {
            Some(BinaryOperator::GreaterThan)
        } else if same_text(s, "<=") {
            Some(BinaryOperator::LessOrEqual)
        } else if same_text(s, ">=") {
            Some(BinaryOperator::GreaterOrEqual)
        } else if same_text(s, "contains") {
            Some(BinaryOperator::Contains)
        } else if same_text(s, "matches") {
            Some(BinaryOperator::Matches)
        } else {
            None
        }
    }

    /// The text that writes the operator.
    pub fn as_str(&self) -> (r: &'static str)
        ensures
            r@ == operator_text(*self),
    {
        match self {
            BinaryOperator::Equals => "=",
            BinaryOperator::NotEquals => "!=",
            BinaryOperator::LessThan => "<",
            BinaryOperator::GreaterThan => ">",
            BinaryOperator::LessOrEqual => "<=",
            BinaryOperator::GreaterOrEqual => ">=",
            BinaryOperator::Contains => "contains",
            BinaryOperator::Matches => "matches",
        }
    }
}

/// The text that writes an operator is read back as that operator.
pub proof fn lemma_operator_round_trip(op: BinaryOperator)
    ensures
        operator_named(operator_text(op)) == Some(op),
{
    reveal_strlit("=");
    reveal_strlit("==");
    reveal_strlit("!=");
    reveal_strlit("<");
    reveal_strlit(">");
    reveal_strlit("<=");
    reveal_strlit(">=");
    reveal_strlit("contains");
    reveal_strlit("matches");
    assert("="@.len() == 1 && "="@[0] == '=');
    assert("=="@.len() == 2 && "=="@[0] == '=');
    assert("!="@.len() == 2 && "!="@[0] == '!');
    assert("<"@.len() == 1 && "<"@[0] == '<');
    assert(">"@.len() == 1 && ">"@[0] == '>');
    assert("<="@.len() == 2 && "<="@[0] == '<');
    assert(">="@.len() == 2 && ">="@[0] == '>');
    assert("contains"@.len() == 8);
}

/// Built-in validation functions.
#[derive(Debug, Clone, Copy, PartialEq, Eq, Structural)]
pub enum ValidationFunction {
    Exists,
    IsArray,
    IsNumber,
    IsString,
    IsUuid,
    IsIso8601,
    IsEmail,
}

/// The validation function that a text names.
pub open spec fn validation_named(s: Seq<char>) -> Option<ValidationFunction> {
    if s == "exists"@ {
        Some(ValidationFunction::Exists)
    } else if s == "is_array"@ {
        Some(ValidationFunction::IsArray)
    } else if s == "is_number"@ {
        Some(ValidationFunction::IsNumber)
    } else if s == "is_string"@ {
        Some(ValidationFunction::IsString)
    } else if s == "is_uuid"@ {
        Some(ValidationFunction::IsUuid)
    } else if s == "is_iso8601"@ {
        Some(ValidationFunction::IsIso8601)
    } else if s == "is_email"@ {
        Some(ValidationFunction::IsEmail)
    } else {
        None
    }
}

impl ValidationFunction {
    /// The validation function that `s` names.
    pub fn from_str(s: &str) -> (r: Option<Self>)
        ensures
            r == validation_named(s@),
    {
        if same_text(s, "exists") {
            Some(ValidationFunction::Exists)
        } else if same_text(s, "is_array") {
            Some(ValidationFunction::IsArray)
        } else if same_text(s, "is_number") {
            Some(ValidationFunction::IsNumber)
        } else if same_text(s, "is_string") {
            Some(ValidationFunction::IsString)
        } else if same_text(s, "is_uuid") {
            Some(ValidationFunction::IsUuid)
        } else if same_text(s, "is_iso8601") {
            Some(ValidationFunction::IsIso8601)
        } else if same_text(s, "is_email") {
            Some(ValidationFunction::IsEmail)
        } else {
            None
        }
    }
}

} // verus!
