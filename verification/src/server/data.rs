use vstd::prelude::*;
use std::collections::HashSet;
use crate::server::properties::{Difficulty, ServerWorldProperties};

verus! {

broadcast use vstd::std_specs::hash::group_hash_axioms;

/// Why a player cannot connect.
#[derive(Clone, Copy, PartialEq, Eq, Structural, Debug)]
pub enum ConnectError {
    /// A player with the same id is already connected.
    AlreadyConnected,
}

/// The world's settings and the ids of the players connected to it.
pub struct ServerWorldData {
    properties: ServerWorldProperties,
    players: HashSet<u64>,
}

impl ServerWorldData {
    /// The world's settings.
    pub closed spec fn settings(&self) -> ServerWorldProperties {
        self.properties
    }

    /// The ids of the connected players.
    pub closed spec fn players(&self) -> Set<u64> {
        self.players@
    }

    /// An easy world named "debug", with no player.
    pub fn new() -> (d: ServerWorldData)
        ensures
            d.settings().name@ == "debug"@,
            d.settings().difficulty == Difficulty::Easy,
            d.players() == Set::<u64>::empty(),
    {
        let name = String::from_str("debug");
        ServerWorldData { properties: ServerWorldProperties::new(name, Difficulty::Easy), players: HashSet::new() }
    }

    /// Connects the player `puid`, refused when a player with that id is connected.
    pub fn connect_player(&mut self, puid: u64) -> (r: Result<(), ConnectError>)
        ensures
            old(self).players().contains(puid) ==> r == Err::<(), ConnectError>(ConnectError::AlreadyConnected)
                && final(self).players() == old(self).players(),
            !old(self).players().contains(puid) ==> r is Ok && final(self).players() == old(self).players().insert(
                puid,
            ),
            final(self).settings() == old(self).settings(),
    {
        if self.players.contains(&puid) {
            return Err(ConnectError::AlreadyConnected);
        }
        self.players.insert(puid);
        Ok(())
    }

    /// Disconnects the player `puid`, if connected.
    pub fn disconnect_player(&mut self, puid: &u64)
        ensures
            final(self).players() == old(self).players().remove(*puid),
            final(self).settings() == old(self).settings(),
    {
        self.players.remove(puid);
    }

    /// Whether the player `puid` is connected.
    pub fn is_connected(&self, puid: &u64) -> (r: bool)
        ensures
            r == self.players().contains(*puid),
    {
        self.players.contains(puid)
    }
}

} // verus!
