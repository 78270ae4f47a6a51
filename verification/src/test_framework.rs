//! Errors and type comparison of the macro self-test suite.
use vstd::prelude::*;

use crate::text::string_eq;

verus! {

/// Errors reported by the macro self-test suite.
#[derive(Debug)]
pub enum TestError {
    ParseError(String),
    AssertionError(String),
    CodeGenerationError(String),
}

/// The message of a self-test error.
pub open spec fn test_error_message(e: TestError) -> Seq<char> {
    match e {
        TestError::ParseError(m) => "Parse error: "@ + m@,
        TestError::AssertionError(m) => "Assertion failed: "@ + m@,
        TestError::CodeGenerationError(m) => "Code generation error: "@ + m@,
    }
}

impl TestError {
    /// The human-readable message of this error.
    pub fn to_string(&self) -> (r: String)
        ensures
            r@ == test_error_message(*self),
    {
        let (prefix, m) = match self {
            TestError::ParseError(m) => ("Parse error: ", m),
            TestError::AssertionError(m) => ("Assertion failed: ", m),
            TestError::CodeGenerationError(m) => ("Code generation error: ", m),
        };
        let mut r = String::from_str(prefix);
        r.append(m.as_str());
        r
    }
}

/// The shape of a method's return type, as the self-tests compare it; each
/// name is the text of its identifier or path.
#[derive(Debug)]
pub enum ReturnType {
    Scalar { name: String },
    Struct { name: String },
    Option { inner_type: Box<ReturnType> },
    Vec { element_type: Box<ReturnType> },
    Result { ok_type: Box<ReturnType>, err_type: Box<ReturnType> },
    Tuple { elements: Vec<ReturnType> },
    Unknown { name: String },
}

/// Whether two return types match: two scalars, or two structs, of the same
/// name; every other pair is reported as different.
pub open spec fn return_types_match(actual: ReturnType, expected: ReturnType) -> bool {
    match (actual, expected) {
        (ReturnType::Scalar { name: n1 }, ReturnType::Scalar { name: n2 }) => n1@ == n2@,
        (ReturnType::Struct { name: n1 }, ReturnType::Struct { name: n2 }) => n1@ == n2@,
        _ => false,
    }
}

/// Compares an analysed return type with the expected one (see
/// `return_types_match`).
pub fn matches_return_type(actual: &ReturnType, expected: &ReturnType) -> (r: bool)
    ensures
        r == return_types_match(*actual, *expected),
{
    match (actual, expected) {
        (ReturnType::Scalar { name: n1 }, ReturnType::Scalar { name: n2 }) => string_eq(n1, n2),
        (ReturnType::Struct { name: n1 }, ReturnType::Struct { name: n2 }) => string_eq(n1, n2),
        _ => false,
    }
}

} // verus!
