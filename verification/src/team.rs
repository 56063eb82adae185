//! The decoded data model: a team, its type, and its eight roster slots.

use vstd::prelude::*;
use vstd::utf8::valid_utf8;

verus! {

/// The team's kind: played by a human, or by the computer at a given level.
///
/// On the wire this is a 16-bit big-endian discriminant: 0 selects `Human`
/// and carries no payload; any other value selects `Cpu`, whose `level` is
/// one less than the raw 16-bit value that follows the discriminant.
#[derive(Debug, Clone, Copy, PartialEq, Eq, Structural)]
pub enum TeamType {
    Human,
    Cpu { level: u16 },
}

/// One roster slot. `name` holds the slot's name as UTF-8 bytes (decoding
/// validates them); an empty name marks an unused slot.
#[derive(Debug, Clone)]
pub struct Worm {
    pub name: Vec<u8>,
    pub played: u16,
    pub kills_for: u16,
}

/// The mathematical value of a `Worm`.
#[verifier::ext_equal]
pub struct SpecWorm {
    pub name: Seq<u8>,
    pub played: u16,
    pub kills_for: u16,
}

impl View for Worm {
    type V = SpecWorm;

    open spec fn view(&self) -> SpecWorm {
        SpecWorm { name: self.name@, played: self.played, kills_for: self.kills_for }
    }
}

/// A decoded team: its type, five counters, and the roster.
/// A well-formed team always has exactly eight roster slots.
#[derive(Debug)]
pub struct Team {
    pub team_type: TeamType,
    pub worm_health: u16,
    pub played: u16,
    pub won: u16,
    pub kills_for: u16,
    pub kills_against: u16,
    pub worms: Vec<Worm>,
}

/// The mathematical value of a `Team`.
#[verifier::ext_equal]
pub struct SpecTeam {
    pub team_type: TeamType,
    pub worm_health: u16,
    pub played: u16,
    pub won: u16,
    pub kills_for: u16,
    pub kills_against: u16,
    pub worms: Seq<SpecWorm>,
}

pub open spec fn worms_view(ws: Seq<Worm>) -> Seq<SpecWorm> {
    ws.map_values(|w: Worm| w@)
}

impl View for Team {
    type V = SpecTeam;

    open spec fn view(&self) -> SpecTeam {
        SpecTeam {
            team_type: self.team_type,
            worm_health: self.worm_health,
            played: self.played,
            won: self.won,
            kills_for: self.kills_for,
            kills_against: self.kills_against,
            worms: worms_view(self.worms@),
        }
    }
}

impl SpecTeam {
    /// Well-formedness: the roster holds exactly eight slots, and every
    /// name is a valid UTF-8 byte sequence.
    pub open spec fn wf(self) -> bool {
        &&& self.worms.len() == 8
        &&& forall|i: int|
            0 <= i < self.worms.len() ==> valid_utf8(#[trigger] self.worms[i].name)
    }
}

} // verus!
