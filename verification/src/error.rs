//! Why a lookup gave no value.

use crate::node::Node;
use vstd::prelude::*;
use vstd::string::StringExecFns;

verus! {

/// Why a lookup gave no value.
#[derive(Debug, PartialEq, Eq)]
pub enum FieldError {
    /// No alternative of the path led to a node that stands for a value.
    Missing,
    /// A node was found but is not of the type asked for. The message names what was
    /// expected and shows the node.
    Invalid(String),
}

/// What a typed lookup gives.
pub type FieldResult<T> = Result<T, FieldError>;

/// The text that `{:?}` formatting gives for `node`.
pub uninterp spec fn debug_text(node: Node) -> Seq<char>;

/// Formats `node` with `format!` and `{:?}`, that is with the `Debug` impl that `Node`
/// derives. The text is taken on trust to be `debug_text` of the node: a function of the
/// node alone.
#[verifier::external_body]
fn render(node: &Node) -> (text: String)
    ensures
        text@ == debug_text(*node),
{
    format!("{:?}", node)
}

/// The message of an `Invalid` error: the label, a space, and the rendering of the node in
/// round brackets.
pub open spec fn invalid_message(label: Seq<char>, rendering: Seq<char>) -> Seq<char> {
    label + seq![' ', '('] + rendering + seq![')']
}

/// Builds the message of an `Invalid` error from the label and the rendering of the node.
pub fn compose_message(label: &str, rendering: &str) -> (message: String)
    ensures
        message@ == invalid_message(label@, rendering@),
{
    let mut message = String::from_str(label);
    message.append(" (");
    message.append(rendering);
    message.append(")");
    proof {
        reveal_strlit(" (");
        reveal_strlit(")");
        assert(" ("@ =~= seq![' ', '(']);
        assert(")"@ =~= seq![')']);
    }
    message
}

/// The result of a typed lookup that found `node`, given what the coercion made of it:
/// the coerced value, or `Invalid` with the message for `label` and `node`.
pub open spec fn coercion_result<T>(
    node: Node,
    label: Seq<char>,
    coerced: Option<T>,
    result: FieldResult<T>,
) -> bool {
    match coerced {
        Some(value) => result == Ok::<T, FieldError>(value),
        None => result matches Err(FieldError::Invalid(message)) && message@ == invalid_message(
            label,
            debug_text(node),
        ),
    }
}

/// Closes a typed lookup that found `node`: the coerced value where the coercion gave
/// one, else `Invalid`.
pub fn conclude<T>(node: &Node, label: &str, coerced: Option<T>) -> (result: FieldResult<T>)
    ensures
        coercion_result(*node, label@, coerced, result),
{
    match coerced {
        Some(value) => Ok(value),
        None => {
            let rendering = render(node);
            Err(FieldError::Invalid(compose_message(label, rendering.as_str())))
        },
    }
}

} // verus!
