use vstd::prelude::*;
use crate::common::pos::ChunkPos;
use crate::server::chunk_map::ServerChunkMap;
use crate::server::cube::{Exclusion, cube_range_spec, cube_ok, exclusion_ok};

verus! {

/// View distance, in chunks, a player starts with.
pub const DEFAULT_VIEW_DISTANCE: u8 = 8;

/// Half-size of the cube of chunks sent to a player when it connects.
pub const FIRST_LOAD_DISTANCE: i32 = 10;

/// What a connection to a player decides from: the chunk the player stands in, its
/// view distance, the id of the heartbeat whose answer is awaited (for the ping),
/// and the id of the next heartbeat.
pub struct ClientConnection {
    player_position: ChunkPos,
    view_distance: u8,
    ping_id: Option<u16>,
    next_id: u16,
}

/// The chunks a player asks for on moving from `last` to `new` with view distance
/// `vd` (the view distance after the update, for both cubes).
pub open spec fn chunks_to_load(last: ChunkPos, new: ChunkPos, vd: u8) -> Seq<ChunkPos> {
    cube_range_spec(new, vd as i32, Exclusion::InCube { center: last, vd: vd as i32 })
}

/// The limits under which the chunks to load from `last` to `new` can be computed.
pub open spec fn move_ok(last: ChunkPos, new: ChunkPos, vd: u8) -> bool {
    &&& cube_ok(last, vd as i32)
    &&& cube_ok(new, vd as i32)
    &&& exclusion_ok(Exclusion::InCube { center: new, vd: vd as i32 }, last, vd as i32)
    &&& exclusion_ok(Exclusion::InCube { center: last, vd: vd as i32 }, new, vd as i32)
}

impl ClientConnection {
    pub closed spec fn position(&self) -> ChunkPos {
        self.player_position
    }

    pub closed spec fn view_distance(&self) -> u8 {
        self.view_distance
    }

    pub closed spec fn awaited(&self) -> Option<u16> {
        self.ping_id
    }

    pub closed spec fn next(&self) -> u16 {
        self.next_id
    }

    /// A connection for a player that starts in chunk `player_position`: default view
    /// distance, awaiting the answer to heartbeat 0.
    pub fn new(player_position: ChunkPos) -> (c: ClientConnection)
        ensures
            c.position() == player_position,
            c.view_distance() == DEFAULT_VIEW_DISTANCE,
            c.awaited() == Some(0u16),
            c.next() == 0,
    {
        ClientConnection { player_position, view_distance: DEFAULT_VIEW_DISTANCE, ping_id: Some(0), next_id: 0 }
    }

    /// What the connection asks of the world when it starts: the generation of the
    /// chunks around the player, and the chunks that moving from a cube of half-size 0
    /// to one of half-size `FIRST_LOAD_DISTANCE` around it loads: that cube but for the
    /// player's own chunk.
    pub fn start_requests(&self) -> (r: (ChunkPos, Vec<ChunkPos>))
        requires
            cube_ok(self.position(), FIRST_LOAD_DISTANCE),
            cube_ok(self.position(), 0),
        ensures
            r.0 == self.position(),
            r.1@ == cube_range_spec(
                self.position(),
                FIRST_LOAD_DISTANCE,
                Exclusion::InCube { center: self.position(), vd: 0 },
            ),
    {
        let pos = self.player_position;
        let (to_load, _to_unload) = ServerChunkMap::compute_chunk_diff(pos, pos, 0, FIRST_LOAD_DISTANCE);
        (pos, to_load)
    }

    /// A heartbeat: the id to query the player with; the ping starts timing it when no
    /// answer is awaited. Ids count up modulo 2^16.
    pub fn heartbeat(&mut self) -> (id: u16)
        ensures
            id == old(self).next(),
            final(self).next() == (id + 1) % 0x1_0000,
            final(self).awaited() == if old(self).awaited() is None {
                Some(id)
            } else {
                old(self).awaited()
            },
            final(self).position() == old(self).position(),
            final(self).view_distance() == old(self).view_distance(),
    {
        if self.ping_id.is_none() {
            self.ping_id = Some(self.next_id);
        }
        let id = self.next_id;
        self.next_id = self.next_id.wrapping_add(1);
        id
    }

    /// The player answered heartbeat `id`: the ping stops waiting if it was that one.
    /// Answers whether it was.
    pub fn answer(&mut self, id: u16) -> (matched: bool)
        ensures
            matched == (old(self).awaited() == Some(id)),
            final(self).awaited() == if matched { None } else { old(self).awaited() },
            final(self).next() == old(self).next(),
            final(self).position() == old(self).position(),
            final(self).view_distance() == old(self).view_distance(),
    {
        let matched = match self.ping_id {
            Some(p) => p == id,
            None => false,
        };
        if matched {
            self.ping_id = None;
        }
        matched
    }

    /// The player now stands in `new_position` with view distance `view_distance`:
    /// when it changed chunk, the generation around the new chunk is asked for; when
    /// it changed chunk or view distance, the chunks to load are asked for.
    pub fn update_player(&mut self, new_position: ChunkPos, view_distance: u8) -> (r: (Option<ChunkPos>, Option<Vec<ChunkPos>>))
        requires
            move_ok(old(self).position(), new_position, view_distance),
        ensures
            final(self).position() == new_position,
            final(self).view_distance() == view_distance,
            final(self).awaited() == old(self).awaited(),
            final(self).next() == old(self).next(),
            r.0 == if new_position != old(self).position() { Some(new_position) } else { None::<ChunkPos> },
            match r.1 {
                Some(v) => (new_position != old(self).position() || view_distance != old(self).view_distance()) && v@
                    == chunks_to_load(old(self).position(), new_position, view_distance),
                None => new_position == old(self).position() && view_distance == old(self).view_distance(),
            },
    {
        let moved = new_position != self.player_position;
        let viewed = self.view_distance != view_distance;
        let last_pos = self.player_position;
        if viewed {
            self.view_distance = view_distance;
        }
        let generate = if moved {
            self.player_position = new_position;
            Some(new_position)
        } else {
            None
        };
        let load = if moved || viewed {
            let vd = view_distance as i32;
            let (to_load, _to_unload) = ServerChunkMap::compute_chunk_diff(last_pos, new_position, vd, vd);
            Some(to_load)
        } else {
            None
        };
        (generate, load)
    }
}

} // verus!
