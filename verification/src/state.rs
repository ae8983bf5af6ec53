use vstd::prelude::*;

use crate::packets::c2s::{Handshake, HandshakeView};

verus! {

/// Where a connection stands in the protocol.
#[derive(Debug, Clone, Copy, PartialEq, Eq, Structural)]
pub enum GameStateEnum {
    Handshake,
    Status,
    Login,
    Play,
}

impl Default for GameStateEnum {
    fn default() -> (r: GameStateEnum)
        ensures
            r == GameStateEnum::Handshake,
    {
        GameStateEnum::Handshake
    }
}

/// Which way a frame travels: from the client to the server, or back.
#[derive(Debug, Clone, Copy, PartialEq, Eq, Structural)]
pub enum DirectionEnum {
    C2S,
    S2C,
}

impl From<DirectionEnum> for &str {
    fn from(direction: DirectionEnum) -> (r: &'static str) {
        match direction {
            DirectionEnum::C2S => "C2S",
            DirectionEnum::S2C => "S2C",
        }
    }
}

impl vstd::std_specs::convert::FromSpecImpl<DirectionEnum> for &str {
    open spec fn obeys_from_spec() -> bool {
        true
    }

    open spec fn from_spec(direction: DirectionEnum) -> &'static str {
        match direction {
            DirectionEnum::C2S => "C2S",
            DirectionEnum::S2C => "S2C",
        }
    }
}

/// What a connection's two directions share: the protocol state and the
/// handshake, once it was seen.
#[derive(Debug)]
pub struct State {
    pub handshake: Option<Handshake>,
    pub state: GameStateEnum,
}

/// The mathematical content of a [`State`].
pub struct StateView {
    pub handshake: Option<HandshakeView>,
    pub state: GameStateEnum,
}

impl View for State {
    type V = StateView;

    open spec fn view(&self) -> StateView {
        StateView {
            handshake: match self.handshake {
                Some(h) => Some(h@),
                None => None,
            },
            state: self.state,
        }
    }
}

impl StateView {
    /// Whether a handshake is held whenever the protocol has left its first state.
    pub open spec fn wf(self) -> bool {
        self.state != GameStateEnum::Handshake ==> self.handshake is Some
    }
}

impl Default for State {
    fn default() -> (r: State)
        ensures
            r@ == (StateView { handshake: None, state: GameStateEnum::Handshake }),
    {
        State { handshake: None, state: GameStateEnum::Handshake }
    }
}

impl Clone for State {
    fn clone(&self) -> (r: State)
        ensures
            r@ == self@,
    {
        State {
            handshake: match &self.handshake {
                Some(h) => Some(h.clone()),
                None => None,
            },
            state: self.state,
        }
    }
}

} // verus!
