//! A soundboard core: a capture state machine driven by a command protocol,
//! a panel controller state machine driven by hardware events, and the line
//! codec that connects a controller to the capture engine over a socket.
//!
//! Everything here is plain data and decisions; device I/O, sockets and
//! processes live with the callers.
use vstd::prelude::*;

pub mod capture;
pub mod panel;
pub mod playback;
pub mod recorder;
pub mod wire;

verus! {

/// A request to the capture engine: begin recording to a destination path,
/// end the current recording, or ask for a description of the current state.
pub enum AudioCommand {
    Start(String),
    Stop,
    Status,
}

/// One reply per command: acknowledgement, a state description, or a
/// structured refusal.
pub enum AudioResponse {
    Status(String),
    Accepted,
    Error(String),
}

/// Mathematical shape of an `AudioCommand`: the destination path as a
/// sequence of characters.
#[verifier::ext_equal]
pub ghost enum CmdModel {
    Start(Seq<char>),
    Stop,
    Status,
}

/// Mathematical shape of an `AudioResponse`.
#[verifier::ext_equal]
pub ghost enum RespModel {
    Status(Seq<char>),
    Accepted,
    Error(Seq<char>),
}

impl View for AudioCommand {
    type V = CmdModel;

    open spec fn view(&self) -> CmdModel {
        match self {
            AudioCommand::Start(p) => CmdModel::Start(p@),
            AudioCommand::Stop => CmdModel::Stop,
            AudioCommand::Status => CmdModel::Status,
        }
    }
}

impl View for AudioResponse {
    type V = RespModel;

    open spec fn view(&self) -> RespModel {
        match self {
            AudioResponse::Status(s) => RespModel::Status(s@),
            AudioResponse::Accepted => RespModel::Accepted,
            AudioResponse::Error(m) => RespModel::Error(m@),
        }
    }
}

} // verus!
