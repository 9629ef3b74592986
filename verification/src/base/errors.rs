use vstd::prelude::*;
use crate::game::StoppedReason;

verus! {

/// An error raised while reading or playing a game.
#[derive(Debug)]
pub struct ChessError {
    pub msg: String,
    pub kind: ErrorKind,
}

/// The kind of a `ChessError`.
#[derive(Debug, Copy, Clone, PartialEq, Eq, Structural)]
pub enum ErrorKind {
    IllegalConfig,
    IllegalFormat,
    IllegalMove,
    HighLevelErr(StoppedReason),
}

/// Builds an error of the given kind whose message is `prefix` followed by `detail`.
pub fn chess_error(kind: ErrorKind, prefix: &str, detail: &str) -> (e: ChessError)
    ensures
        e.kind == kind,
        e.msg@ == prefix@ + detail@,
{
    let mut msg = String::new();
    crate::base::text::push_str(&mut msg, prefix);
    crate::base::text::push_str(&mut msg, detail);
    assert(msg@ =~= prefix@ + detail@);
    ChessError { msg, kind }
}

} // verus!
