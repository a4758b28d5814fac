//! The errors of a parse.

use std::num::ParseIntError;
use vstd::prelude::*;
use vstd::string::StringExecFns;

verus! {

/// `std::num::ParseIntError`, carried through as an opaque value.
#[verifier::external_type_specification]
#[verifier::external_body]
pub struct ExParseIntError(ParseIntError);

/// Every way in which a parse can fail.
#[derive(Debug, PartialEq, Eq)]
pub enum ParseError {
    /// The text does not match the grammar; holds the recognizer's diagnostic.
    ParsingError(String),
    /// The recognizer produced no statement.
    NoQueryFound,
    /// The statement has no `FROM` target.
    TableNotSpecified,
    /// The select list holds a node that is not a select item.
    UnexpectedRuleInSelectList,
    /// A select item holds a node that is neither a name, a call nor the wildcard.
    UnexpectedRuleInSelectItem,
    /// A select item is empty.
    MissingSelectItem,
    /// The `FROM` target is empty.
    MissingTableName,
    /// The `FROM` target holds a node that is neither a name nor a statement.
    UnexpectedRuleInTable,
    /// The `WHERE` clause holds no condition.
    NoConditionInWhereClause,
    /// The condition has no left operand.
    MissingLeftOperand,
    /// The condition has no operator.
    MissingOperator,
    /// The condition has no right operand.
    MissingRightOperand,
    /// A number literal is not a signed 64-bit integer.
    InvalidNumber(ParseIntError),
    /// A value holds a node that is neither a number, a string nor a boolean.
    UnexpectedRuleInValue,
    /// A value is empty.
    ExpectedInnerRuleForValue,
    /// A function call has no name.
    FunctionNameMissing,
}

/// The mathematical value of a [`ParseError`]: its kind, and for a syntax
/// error the diagnostic text.
pub ghost enum ParseErrorView {
    ParsingError(Seq<char>),
    NoQueryFound,
    TableNotSpecified,
    UnexpectedRuleInSelectList,
    UnexpectedRuleInSelectItem,
    MissingSelectItem,
    MissingTableName,
    UnexpectedRuleInTable,
    NoConditionInWhereClause,
    MissingLeftOperand,
    MissingOperator,
    MissingRightOperand,
    InvalidNumber,
    UnexpectedRuleInValue,
    ExpectedInnerRuleForValue,
    FunctionNameMissing,
}

impl View for ParseError {
    type V = ParseErrorView;

    open spec fn view(&self) -> ParseErrorView {
        match self {
            ParseError::ParsingError(text) => ParseErrorView::ParsingError(text@),
            ParseError::NoQueryFound => ParseErrorView::NoQueryFound,
            ParseError::TableNotSpecified => ParseErrorView::TableNotSpecified,
            ParseError::UnexpectedRuleInSelectList => ParseErrorView::UnexpectedRuleInSelectList,
            ParseError::UnexpectedRuleInSelectItem => ParseErrorView::UnexpectedRuleInSelectItem,
            ParseError::MissingSelectItem => ParseErrorView::MissingSelectItem,
            ParseError::MissingTableName => ParseErrorView::MissingTableName,
            ParseError::UnexpectedRuleInTable => ParseErrorView::UnexpectedRuleInTable,
            ParseError::NoConditionInWhereClause => ParseErrorView::NoConditionInWhereClause,
            ParseError::MissingLeftOperand => ParseErrorView::MissingLeftOperand,
            ParseError::MissingOperator => ParseErrorView::MissingOperator,
            ParseError::MissingRightOperand => ParseErrorView::MissingRightOperand,
            ParseError::InvalidNumber(_) => ParseErrorView::InvalidNumber,
            ParseError::UnexpectedRuleInValue => ParseErrorView::UnexpectedRuleInValue,
            ParseError::ExpectedInnerRuleForValue => ParseErrorView::ExpectedInnerRuleForValue,
            ParseError::FunctionNameMissing => ParseErrorView::FunctionNameMissing,
        }
    }
}

impl ParseErrorView {
    /// The description of the error. For an invalid number this is the
    /// opening of the description; the standard library's own words follow it.
    pub open spec fn message(self) -> Seq<char> {
        match self {
            ParseErrorView::ParsingError(text) => "Parsing error: "@ + text,
            ParseErrorView::NoQueryFound => "No query found"@,
            ParseErrorView::TableNotSpecified => "Table not specified"@,
            ParseErrorView::UnexpectedRuleInSelectList => "Unexpected rule in select_list"@,
            ParseErrorView::UnexpectedRuleInSelectItem => "Unexpected rule in select_item"@,
            ParseErrorView::MissingSelectItem => "Missing select item"@,
            ParseErrorView::MissingTableName => "Missing table name"@,
            ParseErrorView::UnexpectedRuleInTable => "Unexpected rule in table"@,
            ParseErrorView::NoConditionInWhereClause => "No condition found in WHERE clause"@,
            ParseErrorView::MissingLeftOperand => "Missing left operand in condition"@,
            ParseErrorView::MissingOperator => "Missing operator in condition"@,
            ParseErrorView::MissingRightOperand => "Missing right operand in condition"@,
            ParseErrorView::InvalidNumber => "Invalid number: "@,
            ParseErrorView::UnexpectedRuleInValue => "Unexpected rule in value"@,
            ParseErrorView::ExpectedInnerRuleForValue => "Expected inner rule for value"@,
            ParseErrorView::FunctionNameMissing => "Function name missing"@,
        }
    }
}

/// The value of a result: the value of what was built, or that of the error.
pub open spec fn result_view<T: View>(r: Result<T, ParseError>) -> Result<T::V, ParseErrorView> {
    match r {
        Ok(built) => Ok(built@),
        Err(e) => Err(e@),
    }
}

/// Calls `to_string` on a `std::num::ParseIntError`. The standard library
/// does not fix the wording, so nothing is claimed of the text.
#[verifier::external_body]
fn parse_int_error_text(error: &ParseIntError) -> (text: String) {
    error.to_string()
}

impl ParseError {
    /// A human-readable description of the error.
    pub fn message(&self) -> (text: String)
        ensures
            self@ is InvalidNumber ==> self@.message().is_prefix_of(text@),
            !(self@ is InvalidNumber) ==> text@ == self@.message(),
    {
        match self {
            ParseError::ParsingError(detail) => {
                String::from_str("Parsing error: ").concat(detail.as_str())
            },
            ParseError::NoQueryFound => String::from_str("No query found"),
            ParseError::TableNotSpecified => String::from_str("Table not specified"),
            ParseError::UnexpectedRuleInSelectList => String::from_str(
                "Unexpected rule in select_list",
            ),
            ParseError::UnexpectedRuleInSelectItem => String::from_str(
                "Unexpected rule in select_item",
            ),
            ParseError::MissingSelectItem => String::from_str("Missing select item"),
            ParseError::MissingTableName => String::from_str("Missing table name"),
            ParseError::UnexpectedRuleInTable => String::from_str("Unexpected rule in table"),
            ParseError::NoConditionInWhereClause => String::from_str(
                "No condition found in WHERE clause",
            ),
            ParseError::MissingLeftOperand => String::from_str("Missing left operand in condition"),
            ParseError::MissingOperator => String::from_str("Missing operator in condition"),
            ParseError::MissingRightOperand => String::from_str(
                "Missing right operand in condition",
            ),
            ParseError::InvalidNumber(error) => {
                let detail = parse_int_error_text(error);
                String::from_str("Invalid number: ").concat(detail.as_str())
            },
            ParseError::UnexpectedRuleInValue => String::from_str("Unexpected rule in value"),
            ParseError::ExpectedInnerRuleForValue => String::from_str(
                "Expected inner rule for value",
            ),
            ParseError::FunctionNameMissing => String::from_str("Function name missing"),
        }
    }
}

} // verus!
