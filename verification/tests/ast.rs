use reqx::parser::ast::{BinaryOperator, PathExpr, PathRoot, PathSegment, ValidationFunction};

#[test]
fn operators_from_text() {
    assert_eq!(BinaryOperator::from_str("="), Some(BinaryOperator::Equals));
    assert_eq!(BinaryOperator::from_str("=="), Some(BinaryOperator::Equals));
    assert_eq!(BinaryOperator::from_str("!="), Some(BinaryOperator::NotEquals));
    assert_eq!(BinaryOperator::from_str("<"), Some(BinaryOperator::LessThan));
    assert_eq!(BinaryOperator::from_str(">"), Some(BinaryOperator::GreaterThan));
    assert_eq!(BinaryOperator::from_str("<="), Some(BinaryOperator::LessOrEqual));
    assert_eq!(BinaryOperator::from_str(">="), Some(BinaryOperator::GreaterOrEqual));
    assert_eq!(BinaryOperator::from_str("contains"), Some(BinaryOperator::Contains));
    assert_eq!(BinaryOperator::from_str("matches"), Some(BinaryOperator::Matches));
    assert_eq!(BinaryOperator::from_str(""), None);
    assert_eq!(BinaryOperator::from_str("==="), None);
    assert_eq!(BinaryOperator::from_str("Contains"), None);
    assert_eq!(BinaryOperator::from_str(" ="), None);
}

#[test]
fn operators_as_text_round_trip() {
    for op in [
        BinaryOperator::Equals,
        BinaryOperator::NotEquals,
        BinaryOperator::LessThan,
        BinaryOperator::GreaterThan,
        BinaryOperator::LessOrEqual,
        BinaryOperator::GreaterOrEqual,
        BinaryOperator::Contains,
        BinaryOperator::Matches,
    ] {
        assert_eq!(BinaryOperator::from_str(op.as_str()), Some(op));
    }
    assert_eq!(BinaryOperator::Equals.as_str(), "=");
    assert_eq!(BinaryOperator::NotEquals.as_str(), "!=");
    assert_eq!(BinaryOperator::LessThan.as_str(), "<");
    assert_eq!(BinaryOperator::GreaterThan.as_str(), ">");
    assert_eq!(BinaryOperator::LessOrEqual.as_str(), "<=");
    assert_eq!(BinaryOperator::GreaterOrEqual.as_str(), ">=");
    assert_eq!(BinaryOperator::Contains.as_str(), "contains");
    assert_eq!(BinaryOperator::Matches.as_str(), "matches");
}

#[test]
fn validation_functions_from_text() {
    assert_eq!(ValidationFunction::from_str("exists"), Some(ValidationFunction::Exists));
    assert_eq!(ValidationFunction::from_str("is_array"), Some(ValidationFunction::IsArray));
    assert_eq!(ValidationFunction::from_str("is_number"), Some(ValidationFunction::IsNumber));
    assert_eq!(ValidationFunction::from_str("is_string"), Some(ValidationFunction::IsString));
    assert_eq!(ValidationFunction::from_str("is_uuid"), Some(ValidationFunction::IsUuid));
    assert_eq!(ValidationFunction::from_str("is_iso8601"), Some(ValidationFunction::IsIso8601));
    assert_eq!(ValidationFunction::from_str("is_email"), Some(ValidationFunction::IsEmail));
    assert_eq!(ValidationFunction::from_str("is_object"), None);
    assert_eq!(ValidationFunction::from_str("!exists"), None);
    assert_eq!(ValidationFunction::from_str(""), None);
}

#[test]
fn path_expression_holds_root_and_segments() {
    let path = PathExpr {
        root: PathRoot::Body,
        segments: vec![PathSegment::Property("a".to_string()), PathSegment::Index(0), PathSegment::Wildcard],
    };
    assert_eq!(path.root, PathRoot::Body);
    assert_eq!(path.segments.len(), 3);
    assert_ne!(PathRoot::Res, PathRoot::Headers);
    assert_ne!(PathRoot::Status, PathRoot::Body);
}
