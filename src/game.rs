use vstd::prelude::*;

use crate::config::Config;

verus! {

/// One of the two sides of the board.
#[derive(Clone, Copy, Debug, PartialEq, Eq, Structural, Hash)]
pub enum Side {
    Black,
    White,
}

impl Side {
    /// The side that moves after this one.
    pub fn opponent(&self) -> (r: Side)
        ensures
            r != *self,
    {
        match self {
            Side::Black => Side::White,
            Side::White => Side::Black,
        }
    }
}

/// How far a search may go: a number of plies, or a wall-clock budget in milliseconds.
#[derive(Clone, Copy, Debug, PartialEq, Eq, Structural, Hash)]
pub enum SearchLimit {
    Depth(usize),
    Time(u64),
}

impl SearchLimit {
    /// The limit given to generated agents: the configured search depth.
    pub fn for_agents(config: &Config) -> (r: SearchLimit)
        ensures
            r == SearchLimit::Depth(config.agent_depth),
    {
        SearchLimit::Depth(config.agent_depth)
    }
}

/// A player who types moves in.
#[derive(Clone, Debug, PartialEq, Eq)]
pub struct Person {
    name: String,
}

impl View for Person {
    type V = Seq<char>;

    /// The player's name.
    closed spec fn view(&self) -> Seq<char> {
        self.name@
    }
}

impl Person {
    pub fn new(name: String) -> (r: Person)
        ensures
            r@ == name@,
    {
        Person { name }
    }

    pub fn name(&self) -> (r: String)
        ensures
            r@ == self@,
    {
        self.name.clone()
    }
}

/// A player whose moves are chosen by an external scoring model.
#[derive(Clone, Debug, PartialEq, Eq)]
pub struct NN {
    name: String,
}

impl View for NN {
    type V = Seq<char>;

    /// The player's name.
    closed spec fn view(&self) -> Seq<char> {
        self.name@
    }
}

impl NN {
    pub fn new(name: String) -> (r: NN)
        ensures
            r@ == name@,
    {
        NN { name }
    }

    pub fn name(&self) -> (r: String)
        ensures
            r@ == self@,
    {
        self.name.clone()
    }
}

/// Who plays a game and whose turn it is; the board itself is kept by the board
/// collaborator.
#[derive(Clone, Debug, PartialEq, Eq)]
pub struct State {
    pub black_player: String,
    pub white_player: String,
    pub current_turn: Side,
}

impl State {
    /// A game between two named players, Black to move first.
    pub fn new(black_player: String, white_player: String) -> (r: State)
        ensures
            r.black_player@ == black_player@,
            r.white_player@ == white_player@,
            r.current_turn == Side::Black,
    {
        State { black_player, white_player, current_turn: Side::Black }
    }

    /// Hands the turn to the other side.
    pub fn pass_turn(&mut self)
        ensures
            final(self).current_turn != old(self).current_turn,
            final(self).black_player@ == old(self).black_player@,
            final(self).white_player@ == old(self).white_player@,
    {
        self.current_turn = self.current_turn.opponent();
    }
}

/// A fresh game between Connor (Black) and Corban (White).
pub fn new_game() -> (r: State)
    ensures
        r.black_player@ == "Connor"@,
        r.white_player@ == "Corban"@,
        r.current_turn == Side::Black,
{
    State::new(String::from_str("Connor"), String::from_str("Corban"))
}

} // verus!
