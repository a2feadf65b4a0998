//! Instructions and the classification of program tokens.
//!
//! A token `name:` defines a label and compiles to a `label` no-op so that
//! token positions and instruction addresses stay aligned; `!op` selects the
//! left end, `op!` the right end; anything else is malformed.

use vstd::prelude::*;
use crate::direction::Direction;

verus! {

/// One loaded instruction: an operation name and the end it works on.
pub struct Instruction {
    pub op: String,
    pub direction: Direction,
}

/// Mathematical image of an [`Instruction`].
#[verifier::ext_equal]
pub ghost struct InstrV {
    pub op: Seq<char>,
    pub direction: Direction,
}

impl View for Instruction {
    type V = InstrV;

    open spec fn view(&self) -> InstrV {
        InstrV { op: self.op@, direction: self.direction }
    }
}

/// A token that defines a label: it ends with a colon.
pub open spec fn is_label_token(t: Seq<char>) -> bool {
    t.len() > 0 && t.last() == ':'
}

/// The name a label token defines, as written (matching is case-insensitive).
pub open spec fn label_name(t: Seq<char>) -> Seq<char> {
    t.drop_last()
}

/// A token the loader accepts: a label definition or a direction-marked
/// operation.
pub open spec fn token_ok(t: Seq<char>) -> bool {
    is_label_token(t) || (t.len() > 0 && (t[0] == '!' || t.last() == '!'))
}

/// The instruction a well-formed token compiles to. Label definitions win
/// over direction markers, and a leading `!` wins over a trailing one.
pub open spec fn instr_of_token(t: Seq<char>) -> InstrV {
    if is_label_token(t) {
        InstrV { op: "label"@, direction: Direction::Left }
    } else if t.len() > 0 && t[0] == '!' {
        InstrV { op: t.drop_first(), direction: Direction::Left }
    } else {
        InstrV { op: t.take(t.len() - 1), direction: Direction::Right }
    }
}

} // verus!
