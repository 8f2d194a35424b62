use vstd::prelude::*;
use vstd::string::*;

use crate::clock::{now, Timestamp};
use crate::ids::{is_uuid_v4_text, new_id};

verus! {

/// A basketball position.
#[derive(Debug, Clone, Copy, PartialEq, Eq)]
pub enum Position {
    PointGuard,
    ShootingGuard,
    SmallForward,
    PowerForward,
    Center,
}

/// The usual abbreviation of a position.
pub open spec fn position_abbreviation(position: Position) -> Seq<char> {
    match position {
        Position::PointGuard => "PG"@,
        Position::ShootingGuard => "SG"@,
        Position::SmallForward => "SF"@,
        Position::PowerForward => "PF"@,
        Position::Center => "C"@,
    }
}

impl Position {
    /// The position's display text, its usual abbreviation.
    pub fn to_string(&self) -> (text: String)
        ensures
            text@ == position_abbreviation(*self),
    {
        match self {
            Position::PointGuard => String::from_str("PG"),
            Position::ShootingGuard => String::from_str("SG"),
            Position::SmallForward => String::from_str("SF"),
            Position::PowerForward => String::from_str("PF"),
            Position::Center => String::from_str("C"),
        }
    }
}

/// A player profile.
#[derive(Debug, Clone)]
pub struct Player {
    pub id: String,
    pub name: String,
    pub jersey_number: Option<u8>,
    pub position: Option<Position>,
    pub team: Option<String>,
    pub notes: Option<String>,
    pub photo_path: Option<String>,
    pub created_at: Timestamp,
}

impl Player {
    /// A player with a fresh id, created now, with no other details.
    pub fn new(name: String) -> (player: Player)
        ensures
            is_uuid_v4_text(player.id@),
            player.name == name,
            player.jersey_number is None,
            player.position is None,
            player.team is None,
            player.notes is None,
            player.photo_path is None,
            player.created_at >= 0,
    {
        Player {
            id: new_id(),
            name,
            jersey_number: None,
            position: None,
            team: None,
            notes: None,
            photo_path: None,
            created_at: now(),
        }
    }
}

/// A team and its roster.
#[derive(Debug, Clone)]
pub struct Team {
    pub id: String,
    pub name: String,
    pub players: Vec<Player>,
    pub logo_path: Option<String>,
    pub created_at: Timestamp,
}

impl Team {
    /// A team with a fresh id, created now, with an empty roster and no
    /// logo.
    pub fn new(name: String) -> (team: Team)
        ensures
            is_uuid_v4_text(team.id@),
            team.name == name,
            team.players@.len() == 0,
            team.logo_path is None,
            team.created_at >= 0,
    {
        Team { id: new_id(), name, players: Vec::new(), logo_path: None, created_at: now() }
    }
}

} // verus!
