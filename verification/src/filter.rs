//! What the filters of the pipeline share: how they see bodies and how they
//! stop a request.
use crate::codec;
use crate::preprocessing::{Complaint, PreprocessError};
use vstd::prelude::*;

verus! {

/// The largest body limit that can be configured.
pub const MAX_BODY_BYTES: usize = 67_108_864;

/// How a filter uses a body.
#[derive(Clone, Copy, Debug, PartialEq, Eq, Structural)]
pub enum BodyAccess {
    NoAccess,
    ReadOnly,
    ReadWrite,
}

/// How a body is handed to a filter.
#[derive(Clone, Copy, Debug, PartialEq, Eq, Structural)]
pub enum BodyMode {
    /// Piece by piece.
    Stream,
    /// As a whole, up to a limit.
    StreamBuffer { max_bytes: Option<usize> },
}

/// Why a filter does not let a request go on.
#[derive(Debug)]
pub enum Stop {
    /// The request is answered with a status and a body.
    Reject { status: u16, body: Option<String> },
    /// The filter fails.
    Fail(String),
}

/// What a `Stop` says.
pub enum StopView {
    Reject { status: u16, body: Option<Seq<char>> },
    Fail(Seq<char>),
}

impl View for Stop {
    type V = StopView;

    open spec fn view(&self) -> StopView {
        match self {
            Stop::Reject { status, body } => StopView::Reject {
                status: *status,
                body: codec::text_option(*body),
            },
            Stop::Fail(message) => StopView::Fail(message@),
        }
    }
}

/// The answer to a request that cannot be prepared.
pub open spec fn refusal(complaint: Complaint) -> StopView {
    StopView::Reject {
        status: PreprocessError::answer(complaint),
        body: Some(complaint.message),
    }
}

/// The answer to a request that cannot be prepared.
pub fn refuse(error: PreprocessError) -> (r: Stop)
    ensures
        r@ == refusal(error@),
{
    let status: u16 = error.status();
    Stop::Reject { status, body: Some(error.message) }
}

/// Whether a body limit can be configured.
pub open spec fn is_body_limit(max_body_bytes: nat) -> bool {
    1 <= max_body_bytes <= MAX_BODY_BYTES
}

} // verus!
