//! JSON Patch operations (RFC 6902).
//!
//! `STATE_DELTA` and `ACTIVITY_DELTA` carry a patch document: an array of these
//! operations, applied in order to the previous snapshot.

use vstd::prelude::*;

use crate::ids::text_eq;
use crate::json::{items_of, json_items, json_member, json_text, member_of, text_of};

verus! {

/// A single RFC 6902 operation.
#[derive(Clone, Debug, PartialEq)]
pub enum PatchOperation {
    /// Inserts `value` at `path`.
    Add {
        /// JSON Pointer to the location to add.
        path: String,
        /// The value to insert.
        value: serde_json::Value,
    },
    /// Removes the value at `path`.
    Remove {
        /// JSON Pointer to the location to remove.
        path: String,
    },
    /// Replaces the value at `path`, which must already exist.
    Replace {
        /// JSON Pointer to the location to overwrite.
        path: String,
        /// The replacement value.
        value: serde_json::Value,
    },
    /// Moves the value at `from` to `path`.
    Move {
        /// JSON Pointer to the source location.
        from: String,
        /// JSON Pointer to the destination.
        path: String,
    },
    /// Copies the value at `from` to `path`.
    Copy {
        /// JSON Pointer to the source location.
        from: String,
        /// JSON Pointer to the destination.
        path: String,
    },
    /// Asserts that the value at `path` equals `value`.
    Test {
        /// JSON Pointer to the location to test.
        path: String,
        /// The value the location is expected to hold.
        value: serde_json::Value,
    },
}

impl PatchOperation {
    /// The `op` string as it appears on the wire.
    pub open spec fn op_name(&self) -> Seq<char> {
        match self {
            PatchOperation::Add { .. } => "add"@,
            PatchOperation::Remove { .. } => "remove"@,
            PatchOperation::Replace { .. } => "replace"@,
            PatchOperation::Move { .. } => "move"@,
            PatchOperation::Copy { .. } => "copy"@,
            PatchOperation::Test { .. } => "test"@,
        }
    }

    /// The JSON Pointer this operation targets.
    pub open spec fn target(&self) -> Seq<char> {
        match self {
            PatchOperation::Add { path, .. } => path@,
            PatchOperation::Remove { path } => path@,
            PatchOperation::Replace { path, .. } => path@,
            PatchOperation::Move { path, .. } => path@,
            PatchOperation::Copy { path, .. } => path@,
            PatchOperation::Test { path, .. } => path@,
        }
    }

    /// Builds an `add` operation.
    pub fn add(path: &str, value: serde_json::Value) -> (op: Self)
        ensures
            op matches PatchOperation::Add { path: p, value: v } && p@ == path@ && v == value,
    {
        PatchOperation::Add { path: path.to_owned(), value }
    }

    /// Builds a `remove` operation.
    pub fn remove(path: &str) -> (op: Self)
        ensures
            op matches PatchOperation::Remove { path: p } && p@ == path@,
    {
        PatchOperation::Remove { path: path.to_owned() }
    }

    /// Builds a `replace` operation.
    pub fn replace(path: &str, value: serde_json::Value) -> (op: Self)
        ensures
            op matches PatchOperation::Replace { path: p, value: v } && p@ == path@ && v == value,
    {
        PatchOperation::Replace { path: path.to_owned(), value }
    }

    /// Builds a `move` operation.
    pub fn mv(from: &str, path: &str) -> (op: Self)
        ensures
            op matches PatchOperation::Move { from: f, path: p } && f@ == from@ && p@ == path@,
    {
        PatchOperation::Move { from: from.to_owned(), path: path.to_owned() }
    }

    /// Builds a `copy` operation.
    pub fn copy(from: &str, path: &str) -> (op: Self)
        ensures
            op matches PatchOperation::Copy { from: f, path: p } && f@ == from@ && p@ == path@,
    {
        PatchOperation::Copy { from: from.to_owned(), path: path.to_owned() }
    }

    /// Builds a `test` operation.
    pub fn test(path: &str, value: serde_json::Value) -> (op: Self)
        ensures
            op matches PatchOperation::Test { path: p, value: v } && p@ == path@ && v == value,
    {
        PatchOperation::Test { path: path.to_owned(), value }
    }

    /// The `op` string as it appears on the wire.
    pub fn op(&self) -> (name: &'static str)
        ensures
            name@ == self.op_name(),
    {
        match self {
            PatchOperation::Add { .. } => "add",
            PatchOperation::Remove { .. } => "remove",
            PatchOperation::Replace { .. } => "replace",
            PatchOperation::Move { .. } => "move",
            PatchOperation::Copy { .. } => "copy",
            PatchOperation::Test { .. } => "test",
        }
    }

    /// The JSON Pointer this operation targets.
    pub fn path(&self) -> (pointer: &str)
        ensures
            pointer@ == self.target(),
    {
        match self {
            PatchOperation::Add { path, .. } => path.as_str(),
            PatchOperation::Remove { path } => path.as_str(),
            PatchOperation::Replace { path, .. } => path.as_str(),
            PatchOperation::Move { path, .. } => path.as_str(),
            PatchOperation::Copy { path, .. } => path.as_str(),
            PatchOperation::Test { path, .. } => path.as_str(),
        }
    }

    /// The source pointer of a `move` or `copy`, or `None` for other operations.
    pub fn from(&self) -> (source: Option<&str>)
        ensures
            match self {
                PatchOperation::Move { from, .. } => source matches Some(s) && s@ == from@,
                PatchOperation::Copy { from, .. } => source matches Some(s) && s@ == from@,
                _ => source is None,
            },
    {
        match self {
            PatchOperation::Move { from, .. } => Some(from.as_str()),
            PatchOperation::Copy { from, .. } => Some(from.as_str()),
            _ => None,
        }
    }

    /// The payload of an `add`, `replace` or `test`, or `None` for other
    /// operations.
    pub fn value(&self) -> (payload: Option<&serde_json::Value>)
        ensures
            match self {
                PatchOperation::Add { value, .. } => payload == Some(value),
                PatchOperation::Replace { value, .. } => payload == Some(value),
                PatchOperation::Test { value, .. } => payload == Some(value),
                _ => payload is None,
            },
    {
        match self {
            PatchOperation::Add { value, .. } => Some(value),
            PatchOperation::Replace { value, .. } => Some(value),
            PatchOperation::Test { value, .. } => Some(value),
            _ => None,
        }
    }
}

/// Whether member `key` of `value` is a string, and which.
pub open spec fn text_member(value: serde_json::Value, key: Seq<char>) -> Option<Seq<char>> {
    match json_member(value, key) {
        Some(m) => json_text(m),
        None => None,
    }
}

/// Whether `value` is the wire form of `op`: an object whose `op` member
/// names the operation, whose `path` (and, for `move` and `copy`, `from`)
/// members are the operation's pointers, and whose `value` member, for `add`,
/// `replace` and `test`, is the operation's value. Other members are ignored.
pub open spec fn decodes_to(value: serde_json::Value, op: PatchOperation) -> bool {
    &&& text_member(value, "op"@) == Some(op.op_name())
    &&& text_member(value, "path"@) == Some(op.target())
    &&& match op {
        PatchOperation::Add { value: v, .. } => json_member(value, "value"@) == Some(v),
        PatchOperation::Replace { value: v, .. } => json_member(value, "value"@) == Some(v),
        PatchOperation::Test { value: v, .. } => json_member(value, "value"@) == Some(v),
        PatchOperation::Move { from, .. } => text_member(value, "from"@) == Some(from@),
        PatchOperation::Copy { from, .. } => text_member(value, "from"@) == Some(from@),
        PatchOperation::Remove { .. } => true,
    }
}

/// Whether `value` is the wire form of some operation.
pub open spec fn decodable(value: serde_json::Value) -> bool {
    match text_member(value, "op"@) {
        Some(name) => {
            &&& text_member(value, "path"@) is Some
            &&& if name == "add"@ || name == "replace"@ || name == "test"@ {
                json_member(value, "value"@) is Some
            } else if name == "move"@ || name == "copy"@ {
                text_member(value, "from"@) is Some
            } else {
                name == "remove"@
            }
        },
        None => false,
    }
}

/// Whether `value` is a patch document: an array of operations.
pub open spec fn document_decodable(value: serde_json::Value) -> bool {
    match json_items(value) {
        Some(items) => forall|i: int| 0 <= i < items.len() ==> decodable(#[trigger] items[i]),
        None => false,
    }
}

/// Whether `ops` is what patch document `value` holds, in order.
pub open spec fn document_decodes_to(value: serde_json::Value, ops: Seq<PatchOperation>) -> bool {
    match json_items(value) {
        Some(items) => items.len() == ops.len()
            && forall|i: int| 0 <= i < items.len() ==> decodes_to(#[trigger] items[i], ops[i]),
        None => false,
    }
}

/// The text of member `key`, when it is a string.
fn text_member_of(value: &serde_json::Value, key: &str) -> (text: Option<String>)
    ensures
        match text {
            Some(t) => text_member(*value, key@) == Some(t@),
            None => text_member(*value, key@) is None,
        },
{
    match member_of(value, key) {
        Some(m) => text_of(&m),
        None => None,
    }
}

impl PatchOperation {
    /// Reads one operation from its wire form, as the RFC lays it out: `None`
    /// when `value` is not an object naming a known operation with the
    /// members it needs.
    pub fn from_json(value: &serde_json::Value) -> (op: Option<PatchOperation>)
        ensures
            op is Some <==> decodable(*value),
            op matches Some(o) ==> decodes_to(*value, o),
    {
        proof {
            reveal_strlit("op");
            reveal_strlit("path");
            reveal_strlit("from");
            reveal_strlit("value");
            reveal_strlit("add");
            reveal_strlit("remove");
            reveal_strlit("replace");
            reveal_strlit("move");
            reveal_strlit("copy");
            reveal_strlit("test");
        }
        let name = match text_member_of(value, "op") {
            Some(n) => n,
            None => {
                return None;
            },
        };
        let path = match text_member_of(value, "path") {
            Some(p) => p,
            None => {
                return None;
            },
        };
        let n = name.as_str();
        if text_eq(n, "add") || text_eq(n, "replace") || text_eq(n, "test") {
            let v = match member_of(value, "value") {
                Some(v) => v,
                None => {
                    return None;
                },
            };
            if text_eq(n, "add") {
                Some(PatchOperation::Add { path, value: v })
            } else if text_eq(n, "replace") {
                Some(PatchOperation::Replace { path, value: v })
            } else {
                Some(PatchOperation::Test { path, value: v })
            }
        } else if text_eq(n, "move") || text_eq(n, "copy") {
            let from = match text_member_of(value, "from") {
                Some(f) => f,
                None => {
                    return None;
                },
            };
            if text_eq(n, "move") {
                Some(PatchOperation::Move { from, path })
            } else {
                Some(PatchOperation::Copy { from, path })
            }
        } else if text_eq(n, "remove") {
            Some(PatchOperation::Remove { path })
        } else {
            None
        }
    }

    /// Reads a patch document, an array of operations: `None` when `value` is
    /// not an array or one of its elements is not an operation.
    pub fn document_from_json(value: &serde_json::Value) -> (ops: Option<Vec<PatchOperation>>)
        ensures
            ops is Some <==> document_decodable(*value),
            ops matches Some(o) ==> document_decodes_to(*value, o@),
    {
        let items = match items_of(value) {
            Some(items) => items,
            None => {
                return None;
            },
        };
        let mut ops: Vec<PatchOperation> = Vec::new();
        let mut i: usize = 0;
        while i < items.len()
            invariant
                json_items(*value) == Some(items@),
                i <= items@.len(),
                ops@.len() == i,
                forall|j: int| 0 <= j < i ==> decodable(#[trigger] items@[j]),
                forall|j: int| 0 <= j < i ==> decodes_to(#[trigger] items@[j], ops@[j]),
            decreases items@.len() - i,
        {
            match PatchOperation::from_json(&items[i]) {
                Some(op) => {
                    ops.push(op);
                },
                None => {
                    proof {
                        let its = json_items(*value)->Some_0;
                        assert(its == items@);
                        assert(!decodable(its[i as int]));
                    }
                    return None;
                },
            }
            i = i + 1;
        }
        Some(ops)
    }
}

} // verus!
