//! The closed set of teams and its fixed colour mapping.

use vstd::prelude::*;
use vstd::std_specs::convert::{FromSpecImpl, TryFromSpecImpl};

verus! {

/// A team tag. Teams carry no mutable state of their own.
#[derive(Clone, Copy, Debug, PartialEq, Eq, Hash, Structural)]
pub enum Team {
    Red,
    Blue,
    Green,
    Yellow,
}

/// A colour in linear RGB. A channel is either off (0) or full (1).
#[derive(Clone, Copy, Debug, PartialEq, Eq, Structural)]
pub struct Color {
    pub red: u8,
    pub green: u8,
    pub blue: u8,
}

/// Number of teams.
pub const TEAM_COUNT: usize = 4;

impl Team {
    /// Position of the team in the enumeration order.
    pub open spec fn ordinal(self) -> nat {
        match self {
            Team::Red => 0,
            Team::Blue => 1,
            Team::Green => 2,
            Team::Yellow => 3,
        }
    }

    /// The team at a position of the enumeration order, if there is one.
    pub open spec fn of_index(value: int) -> Result<Team, ()> {
        if value == 0 {
            Ok(Team::Red)
        } else if value == 1 {
            Ok(Team::Blue)
        } else if value == 2 {
            Ok(Team::Green)
        } else if value == 3 {
            Ok(Team::Yellow)
        } else {
            Err(())
        }
    }

    /// The colour a team is drawn in.
    pub open spec fn color(self) -> Color {
        match self {
            Team::Red => Color { red: 1, green: 0, blue: 0 },
            Team::Blue => Color { red: 0, green: 0, blue: 1 },
            Team::Green => Color { red: 0, green: 1, blue: 0 },
            Team::Yellow => Color { red: 1, green: 1, blue: 0 },
        }
    }

    /// Every team, in enumeration order.
    pub fn all() -> (teams: [Team; 4])
        ensures
            forall|i: int| 0 <= i < 4 ==> (#[trigger] teams[i]).ordinal() == i,
    {
        [Team::Red, Team::Blue, Team::Green, Team::Yellow]
    }

    /// Index of the team in enumeration order, the inverse of `Team::try_from`.
    pub fn index(self) -> (i: usize)
        ensures
            i == self.ordinal(),
            i < TEAM_COUNT,
    {
        match self {
            Team::Red => 0,
            Team::Blue => 1,
            Team::Green => 2,
            Team::Yellow => 3,
        }
    }
}

impl TryFrom<usize> for Team {
    type Error = ();

    /// The team with the given index; an index of `TEAM_COUNT` or more is
    /// rejected.
    fn try_from(value: usize) -> (r: Result<Team, ()>) {
        match value {
            0 => Ok(Team::Red),
            1 => Ok(Team::Blue),
            2 => Ok(Team::Green),
            3 => Ok(Team::Yellow),
            _ => Err(()),
        }
    }
}

impl TryFromSpecImpl<usize> for Team {
    open spec fn obeys_try_from_spec() -> bool {
        true
    }

    open spec fn try_from_spec(value: usize) -> Result<Team, ()> {
        Team::of_index(value as int)
    }
}

impl From<Team> for Color {
    /// The fixed colour of a team.
    fn from(value: Team) -> (c: Color) {
        match value {
            Team::Red => Color { red: 1, green: 0, blue: 0 },
            Team::Blue => Color { red: 0, green: 0, blue: 1 },
            Team::Green => Color { red: 0, green: 1, blue: 0 },
            Team::Yellow => Color { red: 1, green: 1, blue: 0 },
        }
    }
}

impl FromSpecImpl<Team> for Color {
    open spec fn obeys_from_spec() -> bool {
        true
    }

    open spec fn from_spec(value: Team) -> Color {
        value.color()
    }
}

/// An index names a team exactly when it is below `TEAM_COUNT`, and the team
/// it names has that index.
pub proof fn lemma_team_index_round_trip(value: int)
    ensures
        Team::of_index(value) is Ok <==> 0 <= value < TEAM_COUNT,
        Team::of_index(value) matches Ok(team) ==> team.ordinal() == value,
{
}

/// Every team is named by its own index, so no two teams share one.
pub proof fn lemma_team_of_its_index(team: Team)
    ensures
        team.ordinal() < TEAM_COUNT,
        Team::of_index(team.ordinal() as int) == Ok::<Team, ()>(team),
{
}

} // verus!
