//! The rows that a relational store of parsed logs accepts for its tables of
//! names, players, spawns and kills: new rows, and changes to rows that are
//! already stored under an `id`.
use vstd::prelude::*;

verus! {

/// A new badge (a stripe's name).
#[derive(Clone, Debug, PartialEq)]
pub struct NewBadge {
    pub name: String,
}

/// A change to the stored badge `id`.
#[derive(Clone, Debug, PartialEq)]
pub struct BadgeChangeset {
    pub id: i32,
    pub name: String,
}

/// A new kill in a round.
#[derive(Clone, Copy, Debug, PartialEq, Eq, Structural)]
pub struct NewKill {
    pub id: i32,
    pub round_id: i32,
    pub killer_id: i32,
    pub victim_id: i32,
}

/// A change to the stored kill `id`.
#[derive(Clone, Copy, Debug, PartialEq, Eq, Structural)]
pub struct KillChangeset {
    pub id: i32,
    pub round_id: i32,
    pub killer_id: i32,
    pub victim_id: i32,
}

/// A new map.
#[derive(Clone, Debug, PartialEq)]
pub struct NewMap {
    pub name: String,
}

/// A change to the stored map `id`.
#[derive(Clone, Debug, PartialEq)]
pub struct MapChangeset {
    pub id: i32,
    pub name: String,
}

/// A new player.
#[derive(Clone, Debug, PartialEq)]
pub struct NewPlayer {
    pub user_id: i64,
    pub name: String,
}

/// A change to the stored player `id`.
#[derive(Clone, Debug, PartialEq)]
pub struct PlayerChangeset {
    pub id: i32,
    pub user_id: i64,
    pub name: String,
}

/// A new spawn of a player in a round.
#[derive(Clone, Copy, Debug, PartialEq, Eq, Structural)]
pub struct NewSpawn {
    pub spawn_counter: i16,
    pub player_no: i16,
    pub team: i16,
    pub bot: i16,
    pub party: i64,
    pub session: i64,
    pub design: i64,
}

/// A change to the stored spawn `id`.
#[derive(Clone, Copy, Debug, PartialEq, Eq, Structural)]
pub struct SpawnChangeset {
    pub id: i32,
    pub player_id: i32,
    pub round_id: i32,
    pub spawn_counter: i16,
    pub player_no: i16,
    pub team: i16,
    pub bot: i16,
    pub party: i64,
    pub session: i64,
    pub design: i64,
}

/// A new weapon.
#[derive(Clone, Debug, PartialEq)]
pub struct NewWeapon {
    pub name: String,
}

/// A change to the stored weapon `id`.
#[derive(Clone, Debug, PartialEq)]
pub struct WeaponChangeset {
    pub id: i32,
    pub name: String,
}

} // verus!
