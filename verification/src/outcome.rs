//! How a run ends: the stages it passes through, what can fail it, the
//! message and the exit code.

use vstd::prelude::*;
use crate::input::ParseError;
use crate::render::pretty_printed;
use crate::render::reason_phrase;
use crate::render::render;
use crate::render::rendering_of;
use crate::render::RenderError;
use crate::render::Rendering;
use crate::response::ResponseBundle;

verus! {

/// A call that got no usable response: the connection failed, the time
/// ran out, or the body could not be read to its end.
#[derive(Clone, Debug, PartialEq, Eq)]
pub struct NetworkError {
    pub cause: String,
}

/// Anything that ends a run without a rendering.
#[derive(Clone, Debug, PartialEq, Eq)]
pub enum Failure {
    Parse(ParseError),
    Network(NetworkError),
    Render(RenderError),
}

/// The message printed for a failure.
pub open spec fn message_of(failure: Failure) -> Seq<char> {
    match failure {
        Failure::Parse(ParseError::InvalidUrl(why)) => "Invalid URL: "@ + why@,
        Failure::Parse(ParseError::MalformedPair(token)) => "Failed to parse "@ + token@,
        Failure::Network(error) => "Network error: "@ + error.cause@,
        Failure::Render(RenderError::BodyNotJson) => "Response body is not JSON"@,
    }
}

impl Failure {
    /// The message to print. A malformed pair's message holds the argument
    /// that was refused.
    pub fn message(&self) -> (text: String)
        ensures
            text@ == message_of(*self),
    {
        match self {
            Failure::Parse(ParseError::InvalidUrl(why)) => String::from_str("Invalid URL: ").concat(
                why.as_str(),
            ),
            Failure::Parse(ParseError::MalformedPair(token)) => String::from_str(
                "Failed to parse ",
            ).concat(token.as_str()),
            Failure::Network(error) => String::from_str("Network error: ").concat(
                error.cause.as_str(),
            ),
            Failure::Render(RenderError::BodyNotJson) => String::from_str(
                "Response body is not JSON",
            ),
        }
    }
}

/// Takes what came of the call and renders it. A response of any status is
/// rendered; a failed call stays the failure it was.
pub fn respond(arrived: Result<ResponseBundle, NetworkError>) -> (r: Result<Rendering, Failure>)
    ensures
        match arrived {
            Err(error) => r matches Err(Failure::Network(same)) && same == error,
            Ok(bundle) => match rendering_of(
                bundle,
                reason_phrase(bundle.status@),
                pretty_printed(bundle.body@),
            ) {
                Ok(view) => r matches Ok(out) && out@ == view,
                Err(e) => r matches Err(Failure::Render(same)) && same == e,
            },
        },
{
    match arrived {
        Err(error) => Err(Failure::Network(error)),
        Ok(bundle) => match render(&bundle) {
            Ok(out) => Ok(out),
            Err(e) => Err(Failure::Render(e)),
        },
    }
}

/// The process's exit code: 0 after a rendering, of whatever status the
/// response was, and 1 after a failure.
pub fn exit_code(outcome: &Result<Rendering, Failure>) -> (code: u8)
    ensures
        outcome is Ok ==> code == 0,
        outcome is Err ==> code == 1,
{
    match outcome {
        Ok(_) => 0,
        Err(_) => 1,
    }
}

/// Where a run stands.
#[derive(Clone, Copy, Debug, PartialEq, Eq, Structural)]
pub enum Stage {
    Start,
    ParseArgs,
    Dispatch,
    AwaitResponse,
    Render,
    Exit { success: bool },
}

/// How far along a stage is.
pub open spec fn rank(stage: Stage) -> nat {
    match stage {
        Stage::Start => 0,
        Stage::ParseArgs => 1,
        Stage::Dispatch => 2,
        Stage::AwaitResponse => 3,
        Stage::Render => 4,
        Stage::Exit { .. } => 5,
    }
}

/// The stage after `stage`, given whether its work went well. The run is
/// a straight line; a failure leaves it at once, and the exit is final.
pub open spec fn stage_after(stage: Stage, went_well: bool) -> Stage {
    match stage {
        Stage::Exit { .. } => stage,
        Stage::Render => Stage::Exit { success: went_well },
        Stage::Start => if went_well {
            Stage::ParseArgs
        } else {
            Stage::Exit { success: false }
        },
        Stage::ParseArgs => if went_well {
            Stage::Dispatch
        } else {
            Stage::Exit { success: false }
        },
        Stage::Dispatch => if went_well {
            Stage::AwaitResponse
        } else {
            Stage::Exit { success: false }
        },
        Stage::AwaitResponse => if went_well {
            Stage::Render
        } else {
            Stage::Exit { success: false }
        },
    }
}

/// Moves a run on by one stage.
pub fn advance(stage: Stage, went_well: bool) -> (next: Stage)
    ensures
        next == stage_after(stage, went_well),
{
    match stage {
        Stage::Exit { .. } => stage,
        Stage::Render => Stage::Exit { success: went_well },
        _ => if !went_well {
            Stage::Exit { success: false }
        } else {
            match stage {
                Stage::Start => Stage::ParseArgs,
                Stage::ParseArgs => Stage::Dispatch,
                Stage::Dispatch => Stage::AwaitResponse,
                _ => Stage::Render,
            }
        },
    }
}

/// A run never goes back or stays: until it has exited, each step takes it
/// to a later stage, so it exits after five steps at most.
pub proof fn lemma_run_moves_forward(stage: Stage, went_well: bool)
    requires
        !(stage is Exit),
    ensures
        rank(stage_after(stage, went_well)) > rank(stage),
        rank(stage_after(stage, went_well)) <= 5,
{
}

/// A failure at any stage leads straight to the failed exit, and only a
/// run whose every stage went well exits with success.
pub proof fn lemma_failure_exits(stage: Stage)
    requires
        !(stage is Exit),
    ensures
        stage_after(stage, false) == (Stage::Exit { success: false }),
        stage_after(stage, true) == (Stage::Exit { success: true }) <==> stage is Render,
{
}

/// Once a run has exited, nothing moves it.
pub proof fn lemma_exit_is_final(stage: Stage, went_well: bool)
    requires
        stage is Exit,
    ensures
        stage_after(stage, went_well) == stage,
{
}

} // verus!
