//! The loop-based JSON Logic evaluator, and the reading of a variable from
//! the data it evaluates against.

use vstd::prelude::*;
use crate::engine::context::{follow, navigate, pieces_view, split_path};
use crate::json::Json;
use crate::json::SpecJson;
use crate::json_logic::ast::split_dots;
use crate::text::str_chars;

verus! {

/// Loop-based JSON Logic evaluator: it keeps no state between
/// evaluations, its work queue lives in each evaluation.
#[derive(Debug)]
pub struct IterativeEvaluator {
    _private: (),
}

impl IterativeEvaluator {
    /// Create a new evaluator
    pub fn new() -> (e: Self) {
        IterativeEvaluator { _private: () }
    }
}

/// The value at a variable path in the data: the data itself for the
/// empty path; else each dotted segment names a member of an object or
/// the index of an array element.
pub open spec fn variable_value(path: Seq<char>, data: SpecJson) -> Option<SpecJson> {
    if path.len() == 0 {
        Some(data)
    } else {
        navigate(data, split_dots(path))
    }
}

/// Get a variable from data by path (see [`variable_value`]).
pub fn get_variable(path: &str, data: &Json) -> (r: Option<Json>)
    ensures
        match r {
            Some(v) => variable_value(path@, data@) == Some(v@),
            None => variable_value(path@, data@) is None,
        },
{
    let cs = str_chars(path);
    if cs.len() == 0 {
        return Some(data.duplicate());
    }
    let segs = split_path(path);
    assert(pieces_view(segs@).subrange(0, segs@.len() as int) =~= split_dots(path@));
    follow(data.duplicate(), &segs, 0)
}

} // verus!
