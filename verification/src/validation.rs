//! Opt-in checking of a model's tool call against the tool's JSON Schema. The
//! schema is compiled and applied by the `jsonschema` crate; this module
//! decides what is checked and what a failure is reported as.

use vstd::prelude::*;

use crate::message::{ContentBlock, Tool};
use crate::text::{join, owned, push_str, str_eq};

verus! {

/// Why a tool call failed validation.
#[derive(Debug, Clone, PartialEq, Eq)]
pub enum ToolValidationError {
    /// The content block was not a tool call.
    NotAToolCall,
    /// The call named a different tool than the one it was checked against.
    NameMismatch { expected: String, actual: String },
    /// The tool's parameters were not a usable JSON Schema.
    InvalidSchema(String),
    /// The arguments broke the schema; one message per violation.
    Invalid(Vec<String>),
}

/// Whether `jsonschema::validator_for` accepts `schema` as a usable schema.
pub uninterp spec fn schema_compiles(schema: serde_json::Value) -> bool;

/// Whether `instance` conforms to `schema`: the validator compiled from it
/// reports no error. Built without its default features the crate fetches no
/// remote references, so the answer depends on these two values alone.
pub uninterp spec fn schema_admits(schema: serde_json::Value, instance: serde_json::Value) -> bool;

/// `jsonschema::validator_for` on `schema`, then `Validator::iter_errors` on
/// `instance`, each error turned into its message. The contract says whether
/// the schema compiled and whether any violation was found, under the two
/// names above. It says nothing of the messages' text or order: the crate
/// keeps some keyword tables in maps seeded per process, so neither is stated
/// as fixed. Which schemas compile and which instances conform is the JSON
/// Schema specification, which is not restated here. No `requires` is given:
/// the crate's panics found in its source guard its own invariants (its
/// built-in meta-schemas and generated registry), and none was found that a
/// given schema reaches, though that is not ruled out.
#[verifier::external_body]
fn check_against_schema(schema: &serde_json::Value, instance: &serde_json::Value) -> (r: Result<Vec<String>, String>)
    ensures
        r is Ok <==> schema_compiles(*schema),
        r matches Ok(v) ==> (v@.len() == 0 <==> schema_admits(*schema, *instance)),
{
    let validator = jsonschema::validator_for(schema).map_err(|e| e.to_string())?;
    Ok(validator.iter_errors(instance).map(|e| e.to_string()).collect())
}

/// What checking a call to the tool named as expected, with `arguments`,
/// against the tool's schema `schema` gives: a schema that does not compile
/// is reported as such, conforming arguments pass, and others are refused
/// with at least one violation.
pub open spec fn schema_checked(schema: serde_json::Value, arguments: serde_json::Value, r: Result<(), ToolValidationError>) -> bool {
    if !schema_compiles(schema) {
        r matches Err(ToolValidationError::InvalidSchema(_))
    } else if schema_admits(schema, arguments) {
        r is Ok
    } else {
        r matches Err(ToolValidationError::Invalid(v)) && v@.len() > 0
    }
}

/// Checks a model's tool call against `tool`: it must be a tool call, name
/// this tool, and carry arguments that satisfy the tool's schema. On failure
/// every schema violation is returned, so the caller can show them to the
/// model.
pub fn validate_tool_call(tool: &Tool, call: &ContentBlock) -> (r: Result<(), ToolValidationError>)
    ensures
        !(call is ToolCall) <==> r == Err::<(), ToolValidationError>(ToolValidationError::NotAToolCall),
        call matches ContentBlock::ToolCall { name, .. } ==> (name@ != tool.name@ <==> r matches Err(
            ToolValidationError::NameMismatch { .. },
        )),
        r matches Err(ToolValidationError::NameMismatch { expected, actual }) ==> expected@ == tool.name@
            && (call matches ContentBlock::ToolCall { name, .. } && actual@ == name@),
        r matches Err(ToolValidationError::Invalid(errors)) ==> errors@.len() > 0,
        call matches ContentBlock::ToolCall { name, arguments, .. } ==> (name@ == tool.name@
            ==> schema_checked(tool.parameters, *arguments, r)),
{
    let (name, arguments) = match call {
        ContentBlock::ToolCall { name, arguments, .. } => (name, arguments),
        _ => {
            return Err(ToolValidationError::NotAToolCall);
        },
    };
    if !str_eq(name.as_str(), tool.name.as_str()) {
        return Err(
            ToolValidationError::NameMismatch { expected: tool.name.clone(), actual: name.clone() },
        );
    }
    schema_verdict(check_against_schema(&tool.parameters, arguments))
}

/// The verdict on a call's arguments from what checking them against the
/// tool's schema gave: a schema that does not compile is reported with its
/// message, no violations pass, and any violations are all reported.
pub fn schema_verdict(outcome: Result<Vec<String>, String>) -> (r: Result<(), ToolValidationError>)
    ensures
        match outcome {
            Err(m) => r == Err::<(), ToolValidationError>(ToolValidationError::InvalidSchema(m)),
            Ok(es) => if es@.len() == 0 {
                r is Ok
            } else {
                r == Err::<(), ToolValidationError>(ToolValidationError::Invalid(es))
            },
        },
{
    match outcome {
        Err(m) => Err(ToolValidationError::InvalidSchema(m)),
        Ok(errors) => {
            if errors.len() == 0 {
                Ok(())
            } else {
                Err(ToolValidationError::Invalid(errors))
            }
        },
    }
}

impl ToolValidationError {
    pub open spec fn message(self) -> Seq<char> {
        match self {
            ToolValidationError::NotAToolCall => "content block is not a tool call"@,
            ToolValidationError::NameMismatch { expected, actual } => "tool name mismatch: expected `"@
                + expected@ + "`, got `"@ + actual@ + "`"@,
            ToolValidationError::InvalidSchema(m) => "invalid tool schema: "@ + m@,
            ToolValidationError::Invalid(errors) => "tool arguments invalid: "@
                + crate::text::join_seq(crate::text::views(errors@), "; "@),
        }
    }

    /// The error's one-line description.
    pub fn to_string(&self) -> (r: String)
        ensures
            r@ == self.message(),
    {
        match self {
            ToolValidationError::NotAToolCall => owned("content block is not a tool call"),
            ToolValidationError::NameMismatch { expected, actual } => {
                let mut m = owned("tool name mismatch: expected `");
                push_str(&mut m, expected.as_str());
                push_str(&mut m, "`, got `");
                push_str(&mut m, actual.as_str());
                push_str(&mut m, "`");
                m
            },
            ToolValidationError::InvalidSchema(e) => {
                let mut m = owned("invalid tool schema: ");
                push_str(&mut m, e.as_str());
                m
            },
            ToolValidationError::Invalid(errors) => {
                let mut m = owned("tool arguments invalid: ");
                let joined = join(errors, "; ");
                push_str(&mut m, joined.as_str());
                m
            },
        }
    }
}

} // verus!
