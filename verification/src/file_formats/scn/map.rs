//! The scenario map: its size and its tiles.

use vstd::prelude::*;
use crate::bytes::{available, i8_of, read_u32, u32_at, StreamError};
use crate::identifier::TerrainId;

verus! {

/// The scenario map: `width * height` tiles, row by row.
#[derive(Default, Debug)]
pub struct ScenarioMap {
    pub width: u32,
    pub height: u32,
    pub tiles: Vec<MapTile>,
}

/// A tile: its terrain and elevation.
#[derive(Default, Debug, Clone, Copy, PartialEq, Eq)]
pub struct MapTile {
    pub terrain_id: TerrainId,
    pub elevation: u8,
    pub unused: u8,
}

/// The tile stored at `q`.
pub open spec fn tile_at(d: Seq<u8>, q: int) -> MapTile {
    MapTile { terrain_id: TerrainId(d[q]), elevation: d[q + 1], unused: d[q + 2] }
}

/// Reading `n` tiles from `q`: `None` where a tile's terrain is -1 (a tile
/// must have a terrain); else how many bytes the data held for them.
pub open spec fn tiles_read(d: Seq<u8>, q: int, n: nat) -> Option<Result<(), StreamError>>
    decreases n,
{
    if n == 0 {
        Some(Ok(()))
    } else {
        match tiles_read(d, q, (n - 1) as nat) {
            Some(Ok(())) => {
                let t = q + 3 * (n - 1);
                if !available(d, t, 1) {
                    Some(Err(StreamError::UnexpectedEof))
                } else if i8_of(d[t]) == -1 {
                    None
                } else if !available(d, t + 1, 2) {
                    Some(Err(StreamError::UnexpectedEof))
                } else {
                    Some(Ok(()))
                }
            },
            other => other,
        }
    }
}

/// Reading the map at `p`: its width and height, then `width * height` tiles;
/// `None` where the tile count overflows 32 bits or a tile has no terrain.
pub open spec fn map_read(d: Seq<u8>, p: int) -> Option<Result<int, StreamError>> {
    if !available(d, p, 8) {
        Some(Err(StreamError::UnexpectedEof))
    } else if u32_at(d, p) * u32_at(d, p + 4) > u32::MAX {
        None
    } else {
        match tiles_read(d, p + 8, (u32_at(d, p) * u32_at(d, p + 4)) as nat) {
            None => None,
            Some(Err(e)) => Some(Err(e)),
            Some(Ok(())) => Some(Ok(p + 8 + 3 * (u32_at(d, p) * u32_at(d, p + 4)))),
        }
    }
}

proof fn lemma_tiles_stop_stays(d: Seq<u8>, q: int, i: nat, n: nat)
    requires
        i <= n,
        !(tiles_read(d, q, i) matches Some(Ok(()))),
    ensures
        tiles_read(d, q, n) == tiles_read(d, q, i),
    decreases n - i,
{
    if i < n {
        lemma_tiles_stop_stays(d, q, i + 1, n);
    }
}

impl ScenarioMap {
    /// Reads the map; `None` where the tile count overflows or a tile has no terrain.
    pub fn read_from_stream_checked(data: &[u8], pos: &mut u64) -> (r: Option<Result<ScenarioMap, StreamError>>)
        ensures
            match map_read(data@, *old(pos) as int) {
                None => r is None,
                Some(Err(e)) => r == Some(Err::<ScenarioMap, StreamError>(e)),
                Some(Ok(end)) => r matches Some(Ok(m)) && *final(pos) == end
                    && m.width == u32_at(data@, *old(pos) as int) && m.height == u32_at(data@, *old(pos) + 4)
                    && m.tiles@.len() == m.width * m.height
                    && forall|i: int| 0 <= i < m.tiles@.len() ==> #[trigger] m.tiles@[i] == tile_at(data@, *old(pos) + 8 + 3 * i),
            },
    {
        let ghost p0 = *pos as int;
        let width = match read_u32(data, pos) {
            Ok(v) => v,
            Err(e) => return Some(Err(e)),
        };
        let height = match read_u32(data, pos) {
            Ok(v) => v,
            Err(e) => return Some(Err(e)),
        };
        assert(width as u64 * height as u64 <= 0xFFFF_FFFE_0000_0001) by (nonlinear_arith)
            requires
                width <= 0xFFFF_FFFF,
                height <= 0xFFFF_FFFF,
        ;
        let total: u64 = width as u64 * height as u64;
        if total > 0xFFFF_FFFF {
            return None;
        }
        let count = total as usize;
        let mut tiles: Vec<MapTile> = Vec::new();
        let mut k: usize = 0;
        while k < count
            invariant
                k <= count,
                count == width * height,
                p0 == *old(pos),
                *pos == p0 + 8 + 3 * k,
                width == u32_at(data@, p0) && height == u32_at(data@, p0 + 4),
                available(data@, p0, 8),
                tiles_read(data@, p0 + 8, k as nat) == Some(Ok::<(), StreamError>(())),
                tiles@.len() == k,
                forall|i: int| 0 <= i < k ==> #[trigger] tiles@[i] == tile_at(data@, p0 + 8 + 3 * i),
                count <= u32::MAX,
                p0 + 8 <= data@.len(),
            decreases count - k,
        {
            let t = *pos;
            let raw = match crate::bytes::read_i8(data, pos) {
                Ok(v) => v,
                Err(e) => {
                    proof {
                        lemma_tiles_stop_stays(data@, p0 + 8, (k + 1) as nat, count as nat);
                    }
                    return Some(Err(e));
                },
            };
            if raw == -1 {
                proof {
                    lemma_tiles_stop_stays(data@, p0 + 8, (k + 1) as nat, count as nat);
                }
                return None;
            }
            let elevation = match crate::bytes::read_u8(data, pos) {
                Ok(v) => v,
                Err(e) => {
                    proof {
                        lemma_tiles_stop_stays(data@, p0 + 8, (k + 1) as nat, count as nat);
                    }
                    return Some(Err(e));
                },
            };
            let unused = match crate::bytes::read_u8(data, pos) {
                Ok(v) => v,
                Err(e) => {
                    proof {
                        lemma_tiles_stop_stays(data@, p0 + 8, (k + 1) as nat, count as nat);
                    }
                    return Some(Err(e));
                },
            };
            let terrain = data[t as usize];
            tiles.push(MapTile { terrain_id: TerrainId(terrain), elevation, unused });
            k = k + 1;
        }
        Some(Ok(ScenarioMap { width, height, tiles }))
    }

    /// Reads the map, where its tile count fits and every tile has a terrain.
    pub fn read_from_stream(data: &[u8], pos: &mut u64) -> (r: Result<ScenarioMap, StreamError>)
        requires
            map_read(data@, *old(pos) as int) is Some,
        ensures
            match map_read(data@, *old(pos) as int) {
                Some(Err(e)) => r == Err::<ScenarioMap, StreamError>(e),
                Some(Ok(end)) => r matches Ok(m) && *final(pos) == end
                    && m.width == u32_at(data@, *old(pos) as int) && m.height == u32_at(data@, *old(pos) + 4)
                    && m.tiles@.len() == m.width * m.height
                    && forall|i: int| 0 <= i < m.tiles@.len() ==> #[trigger] m.tiles@[i] == tile_at(data@, *old(pos) + 8 + 3 * i),
                None => false,
            },
    {
        ScenarioMap::read_from_stream_checked(data, pos).unwrap()
    }
}

} // verus!
