//! Identifier types shared by the file formats and the engine, and the
//! conventions by which the data files encode absent identifiers (`-1`).

use vstd::prelude::*;

verus! {

/// ID for players.
#[derive(Default, Copy, Clone, Eq, PartialEq, Ord, PartialOrd, Hash, Debug)]
pub struct PlayerId(pub u8);

impl PlayerId {
    /// The identifier with the given index, keeping its low bits as the
    /// underlying integer type does.
    pub fn from_usize(index: usize) -> (r: PlayerId)
        ensures
            r.0 == index as u8,
    {
        PlayerId(#[verifier::truncate] (index as u8))
    }

    /// The underlying integer.
    pub fn value(&self) -> (r: u8)
        ensures
            r == self.0,
    {
        self.0
    }
}

impl core::ops::Deref for PlayerId {
    type Target = u8;

    fn deref(&self) -> (r: &u8)
        ensures
            *r == self.0,
    {
        &self.0
    }
}

/// ID for player colors in the empires database.
#[derive(Default, Copy, Clone, Eq, PartialEq, Ord, PartialOrd, Hash, Debug)]
pub struct PlayerColorId(pub u8);

impl PlayerColorId {
    /// The identifier with the given index, keeping its low bits as the
    /// underlying integer type does.
    pub fn from_usize(index: usize) -> (r: PlayerColorId)
        ensures
            r.0 == index as u8,
    {
        PlayerColorId(#[verifier::truncate] (index as u8))
    }

    /// The underlying integer.
    pub fn value(&self) -> (r: u8)
        ensures
            r == self.0,
    {
        self.0
    }
}

impl core::ops::Deref for PlayerColorId {
    type Target = u8;

    fn deref(&self) -> (r: &u8)
        ensures
            *r == self.0,
    {
        &self.0
    }
}

/// ID for an SLP file in a DRS package.
#[derive(Default, Copy, Clone, Eq, PartialEq, Ord, PartialOrd, Hash, Debug)]
pub struct SlpFileId(pub u32);

impl SlpFileId {
    /// The identifier with the given index, keeping its low bits as the
    /// underlying integer type does.
    pub fn from_usize(index: usize) -> (r: SlpFileId)
        ensures
            r.0 == index as u32,
    {
        SlpFileId(#[verifier::truncate] (index as u32))
    }

    /// The underlying integer.
    pub fn value(&self) -> (r: u32)
        ensures
            r == self.0,
    {
        self.0
    }
}

impl core::ops::Deref for SlpFileId {
    type Target = u32;

    fn deref(&self) -> (r: &u32)
        ensures
            *r == self.0,
    {
        &self.0
    }
}

/// ID for a frame inside of an SLP file.
#[derive(Default, Copy, Clone, Eq, PartialEq, Ord, PartialOrd, Hash, Debug)]
pub struct SlpFrameId(pub u32);

impl SlpFrameId {
    /// The identifier with the given index, keeping its low bits as the
    /// underlying integer type does.
    pub fn from_usize(index: usize) -> (r: SlpFrameId)
        ensures
            r.0 == index as u32,
    {
        SlpFrameId(#[verifier::truncate] (index as u32))
    }

    /// The underlying integer.
    pub fn value(&self) -> (r: u32)
        ensures
            r == self.0,
    {
        self.0
    }
}

impl core::ops::Deref for SlpFrameId {
    type Target = u32;

    fn deref(&self) -> (r: &u32)
        ensures
            *r == self.0,
    {
        &self.0
    }
}

/// ID for a WAV file in a DRS package.
#[derive(Default, Copy, Clone, Eq, PartialEq, Ord, PartialOrd, Hash, Debug)]
pub struct WavFileId(pub u32);

impl WavFileId {
    /// The identifier with the given index, keeping its low bits as the
    /// underlying integer type does.
    pub fn from_usize(index: usize) -> (r: WavFileId)
        ensures
            r.0 == index as u32,
    {
        WavFileId(#[verifier::truncate] (index as u32))
    }

    /// The underlying integer.
    pub fn value(&self) -> (r: u32)
        ensures
            r == self.0,
    {
        self.0
    }
}

impl core::ops::Deref for WavFileId {
    type Target = u32;

    fn deref(&self) -> (r: &u32)
        ensures
            *r == self.0,
    {
        &self.0
    }
}

/// ID for a graphic in the empires database.
#[derive(Default, Copy, Clone, Eq, PartialEq, Ord, PartialOrd, Hash, Debug)]
pub struct GraphicId(pub u32);

impl GraphicId {
    /// The identifier with the given index, keeping its low bits as the
    /// underlying integer type does.
    pub fn from_usize(index: usize) -> (r: GraphicId)
        ensures
            r.0 == index as u32,
    {
        GraphicId(#[verifier::truncate] (index as u32))
    }

    /// The underlying integer.
    pub fn value(&self) -> (r: u32)
        ensures
            r == self.0,
    {
        self.0
    }
}

impl core::ops::Deref for GraphicId {
    type Target = u32;

    fn deref(&self) -> (r: &u32)
        ensures
            *r == self.0,
    {
        &self.0
    }
}

/// ID for a sound group in the empires database.
#[derive(Default, Copy, Clone, Eq, PartialEq, Ord, PartialOrd, Hash, Debug)]
pub struct SoundGroupId(pub u32);

impl SoundGroupId {
    /// The identifier with the given index, keeping its low bits as the
    /// underlying integer type does.
    pub fn from_usize(index: usize) -> (r: SoundGroupId)
        ensures
            r.0 == index as u32,
    {
        SoundGroupId(#[verifier::truncate] (index as u32))
    }

    /// The underlying integer.
    pub fn value(&self) -> (r: u32)
        ensures
            r == self.0,
    {
        self.0
    }
}

impl core::ops::Deref for SoundGroupId {
    type Target = u32;

    fn deref(&self) -> (r: &u32)
        ensures
            *r == self.0,
    {
        &self.0
    }
}

/// ID for an age (that defines effects for research) in the empires database.
#[derive(Default, Copy, Clone, Eq, PartialEq, Ord, PartialOrd, Hash, Debug)]
pub struct AgeId(pub u32);

impl AgeId {
    /// The identifier with the given index, keeping its low bits as the
    /// underlying integer type does.
    pub fn from_usize(index: usize) -> (r: AgeId)
        ensures
            r.0 == index as u32,
    {
        AgeId(#[verifier::truncate] (index as u32))
    }

    /// The underlying integer.
    pub fn value(&self) -> (r: u32)
        ensures
            r == self.0,
    {
        self.0
    }
}

impl core::ops::Deref for AgeId {
    type Target = u32;

    fn deref(&self) -> (r: &u32)
        ensures
            *r == self.0,
    {
        &self.0
    }
}

/// ID for research in the empires database.
#[derive(Default, Copy, Clone, Eq, PartialEq, Ord, PartialOrd, Hash, Debug)]
pub struct ResearchId(pub u32);

impl ResearchId {
    /// The identifier with the given index, keeping its low bits as the
    /// underlying integer type does.
    pub fn from_usize(index: usize) -> (r: ResearchId)
        ensures
            r.0 == index as u32,
    {
        ResearchId(#[verifier::truncate] (index as u32))
    }

    /// The underlying integer.
    pub fn value(&self) -> (r: u32)
        ensures
            r == self.0,
    {
        self.0
    }
}

impl core::ops::Deref for ResearchId {
    type Target = u32;

    fn deref(&self) -> (r: &u32)
        ensures
            *r == self.0,
    {
        &self.0
    }
}

/// ID for civilizations in the empires database.
#[derive(Default, Copy, Clone, Eq, PartialEq, Ord, PartialOrd, Hash, Debug)]
pub struct CivilizationId(pub u8);

impl CivilizationId {
    /// The identifier with the given index, keeping its low bits as the
    /// underlying integer type does.
    pub fn from_usize(index: usize) -> (r: CivilizationId)
        ensures
            r.0 == index as u8,
    {
        CivilizationId(#[verifier::truncate] (index as u8))
    }

    /// The underlying integer.
    pub fn value(&self) -> (r: u8)
        ensures
            r == self.0,
    {
        self.0
    }
}

impl core::ops::Deref for CivilizationId {
    type Target = u8;

    fn deref(&self) -> (r: &u8)
        ensures
            *r == self.0,
    {
        &self.0
    }
}

/// ID for units in the empires database.
#[derive(Default, Copy, Clone, Eq, PartialEq, Ord, PartialOrd, Hash, Debug)]
pub struct UnitId(pub u32);

impl UnitId {
    /// The identifier with the given index, keeping its low bits as the
    /// underlying integer type does.
    pub fn from_usize(index: usize) -> (r: UnitId)
        ensures
            r.0 == index as u32,
    {
        UnitId(#[verifier::truncate] (index as u32))
    }

    /// The underlying integer.
    pub fn value(&self) -> (r: u32)
        ensures
            r == self.0,
    {
        self.0
    }
}

impl core::ops::Deref for UnitId {
    type Target = u32;

    fn deref(&self) -> (r: &u32)
        ensures
            *r == self.0,
    {
        &self.0
    }
}

/// ID for unit classes in the empires database.
#[derive(Default, Copy, Clone, Eq, PartialEq, Ord, PartialOrd, Hash, Debug)]
pub struct UnitClassId(pub u32);

impl UnitClassId {
    /// The identifier with the given index, keeping its low bits as the
    /// underlying integer type does.
    pub fn from_usize(index: usize) -> (r: UnitClassId)
        ensures
            r.0 == index as u32,
    {
        UnitClassId(#[verifier::truncate] (index as u32))
    }

    /// The underlying integer.
    pub fn value(&self) -> (r: u32)
        ensures
            r == self.0,
    {
        self.0
    }
}

impl core::ops::Deref for UnitClassId {
    type Target = u32;

    fn deref(&self) -> (r: &u32)
        ensures
            *r == self.0,
    {
        &self.0
    }
}

/// ID for unit commands in the empires database.
#[derive(Default, Copy, Clone, Eq, PartialEq, Ord, PartialOrd, Hash, Debug)]
pub struct UnitCommandId(pub u32);

impl UnitCommandId {
    /// The identifier with the given index, keeping its low bits as the
    /// underlying integer type does.
    pub fn from_usize(index: usize) -> (r: UnitCommandId)
        ensures
            r.0 == index as u32,
    {
        UnitCommandId(#[verifier::truncate] (index as u32))
    }

    /// The underlying integer.
    pub fn value(&self) -> (r: u32)
        ensures
            r == self.0,
    {
        self.0
    }
}

impl core::ops::Deref for UnitCommandId {
    type Target = u32;

    fn deref(&self) -> (r: &u32)
        ensures
            *r == self.0,
    {
        &self.0
    }
}

/// ID for a unit instance placed on a map.
#[derive(Default, Copy, Clone, Eq, PartialEq, Ord, PartialOrd, Hash, Debug)]
pub struct SpawnId(pub u32);

impl SpawnId {
    /// The identifier with the given index, keeping its low bits as the
    /// underlying integer type does.
    pub fn from_usize(index: usize) -> (r: SpawnId)
        ensures
            r.0 == index as u32,
    {
        SpawnId(#[verifier::truncate] (index as u32))
    }

    /// The underlying integer.
    pub fn value(&self) -> (r: u32)
        ensures
            r == self.0,
    {
        self.0
    }
}

impl core::ops::Deref for SpawnId {
    type Target = u32;

    fn deref(&self) -> (r: &u32)
        ensures
            *r == self.0,
    {
        &self.0
    }
}

/// ID for a localized string in the language library.
#[derive(Default, Copy, Clone, Eq, PartialEq, Ord, PartialOrd, Hash, Debug)]
pub struct LocalizationId(pub u32);

impl LocalizationId {
    /// The identifier with the given index, keeping its low bits as the
    /// underlying integer type does.
    pub fn from_usize(index: usize) -> (r: LocalizationId)
        ensures
            r.0 == index as u32,
    {
        LocalizationId(#[verifier::truncate] (index as u32))
    }

    /// The underlying integer.
    pub fn value(&self) -> (r: u32)
        ensures
            r == self.0,
    {
        self.0
    }
}

impl core::ops::Deref for LocalizationId {
    type Target = u32;

    fn deref(&self) -> (r: &u32)
        ensures
            *r == self.0,
    {
        &self.0
    }
}

/// ID for random map script references in the empires database.
#[derive(Default, Copy, Clone, Eq, PartialEq, Ord, PartialOrd, Hash, Debug)]
pub struct RandomMapScriptId(pub u32);

impl RandomMapScriptId {
    /// The identifier with the given index, keeping its low bits as the
    /// underlying integer type does.
    pub fn from_usize(index: usize) -> (r: RandomMapScriptId)
        ensures
            r.0 == index as u32,
    {
        RandomMapScriptId(#[verifier::truncate] (index as u32))
    }

    /// The underlying integer.
    pub fn value(&self) -> (r: u32)
        ensures
            r == self.0,
    {
        self.0
    }
}

impl core::ops::Deref for RandomMapScriptId {
    type Target = u32;

    fn deref(&self) -> (r: &u32)
        ensures
            *r == self.0,
    {
        &self.0
    }
}

/// ID for terrains defined in the empires database.
#[derive(Default, Copy, Clone, Eq, PartialEq, Ord, PartialOrd, Hash, Debug)]
pub struct TerrainId(pub u8);

impl TerrainId {
    /// The identifier with the given index, keeping its low bits as the
    /// underlying integer type does.
    pub fn from_usize(index: usize) -> (r: TerrainId)
        ensures
            r.0 == index as u8,
    {
        TerrainId(#[verifier::truncate] (index as u8))
    }

    /// The underlying integer.
    pub fn value(&self) -> (r: u8)
        ensures
            r == self.0,
    {
        self.0
    }
}

impl core::ops::Deref for TerrainId {
    type Target = u8;

    fn deref(&self) -> (r: &u8)
        ensures
            *r == self.0,
    {
        &self.0
    }
}

/// ID for terrain borders defined in the empires database.
#[derive(Default, Copy, Clone, Eq, PartialEq, Ord, PartialOrd, Hash, Debug)]
pub struct TerrainBorderId(pub u8);

impl TerrainBorderId {
    /// The identifier with the given index, keeping its low bits as the
    /// underlying integer type does.
    pub fn from_usize(index: usize) -> (r: TerrainBorderId)
        ensures
            r.0 == index as u8,
    {
        TerrainBorderId(#[verifier::truncate] (index as u8))
    }

    /// The underlying integer.
    pub fn value(&self) -> (r: u8)
        ensures
            r == self.0,
    {
        self.0
    }
}

impl core::ops::Deref for TerrainBorderId {
    type Target = u8;

    fn deref(&self) -> (r: &u8)
        ensures
            *r == self.0,
    {
        &self.0
    }
}

impl PlayerId {
    /// The player color that a player uses by default: the one with the same number.
    pub fn to_player_color_id(self) -> (r: PlayerColorId)
        ensures
            r.0 == self.0,
    {
        PlayerColorId(self.0)
    }
}
/// Different classes of terrain restriction for a unit.
#[derive(Copy, Clone, Debug, PartialEq, Eq)]
pub enum UnitTerrainRestrictionId {
    /// Units that fly or are in the air (dying units and missiles)
    Flying,
    GroundWildlife,
    /// Identifies terrain as "beach"
    Beach,
    /// Typically boats
    WaterBorne,
    GroundBuilding,
    /// All terrains are restricted; nothing seems to use this
    CompletelyRestricted,
    /// The dock is a special unit that has to be placed on land, beach, shallows, and ocean
    Dock,
    GroundUnit,
    /// Terrains that resources (gold, stone, berries) can be placed on
    ResourceSite,
    Farm,
    Wall,
    Unknown(usize),
}

/// The restriction class stored at `index` in the terrain restriction table.
pub open spec fn restriction_of_index(index: usize) -> UnitTerrainRestrictionId {
    match index {
        0 => UnitTerrainRestrictionId::Flying,
        1 => UnitTerrainRestrictionId::GroundWildlife,
        2 => UnitTerrainRestrictionId::Beach,
        3 => UnitTerrainRestrictionId::WaterBorne,
        4 => UnitTerrainRestrictionId::GroundBuilding,
        5 => UnitTerrainRestrictionId::CompletelyRestricted,
        6 => UnitTerrainRestrictionId::Dock,
        7 => UnitTerrainRestrictionId::GroundUnit,
        8 => UnitTerrainRestrictionId::ResourceSite,
        9 => UnitTerrainRestrictionId::Farm,
        10 => UnitTerrainRestrictionId::Wall,
        _ => UnitTerrainRestrictionId::Unknown(index),
    }
}

/// The table index of a restriction class.
pub open spec fn index_of_restriction(id: UnitTerrainRestrictionId) -> usize {
    match id {
        UnitTerrainRestrictionId::Flying => 0,
        UnitTerrainRestrictionId::GroundWildlife => 1,
        UnitTerrainRestrictionId::Beach => 2,
        UnitTerrainRestrictionId::WaterBorne => 3,
        UnitTerrainRestrictionId::GroundBuilding => 4,
        UnitTerrainRestrictionId::CompletelyRestricted => 5,
        UnitTerrainRestrictionId::Dock => 6,
        UnitTerrainRestrictionId::GroundUnit => 7,
        UnitTerrainRestrictionId::ResourceSite => 8,
        UnitTerrainRestrictionId::Farm => 9,
        UnitTerrainRestrictionId::Wall => 10,
        UnitTerrainRestrictionId::Unknown(index) => index,
    }
}

/// A restriction class as the table produces it: an `Unknown` class only for
/// indices past the named ones.
pub open spec fn canonical_restriction(id: UnitTerrainRestrictionId) -> bool {
    id matches UnitTerrainRestrictionId::Unknown(index) ==> index > 10
}

impl UnitTerrainRestrictionId {
    pub fn from_index(index: usize) -> (r: UnitTerrainRestrictionId)
        ensures
            r == restriction_of_index(index),
    {
        match index {
            0 => UnitTerrainRestrictionId::Flying,
            1 => UnitTerrainRestrictionId::GroundWildlife,
            2 => UnitTerrainRestrictionId::Beach,
            3 => UnitTerrainRestrictionId::WaterBorne,
            4 => UnitTerrainRestrictionId::GroundBuilding,
            5 => UnitTerrainRestrictionId::CompletelyRestricted,
            6 => UnitTerrainRestrictionId::Dock,
            7 => UnitTerrainRestrictionId::GroundUnit,
            8 => UnitTerrainRestrictionId::ResourceSite,
            9 => UnitTerrainRestrictionId::Farm,
            10 => UnitTerrainRestrictionId::Wall,
            _ => UnitTerrainRestrictionId::Unknown(index),
        }
    }

    pub fn as_index(&self) -> (r: usize)
        ensures
            r == index_of_restriction(*self),
    {
        match *self {
            UnitTerrainRestrictionId::Flying => 0,
            UnitTerrainRestrictionId::GroundWildlife => 1,
            UnitTerrainRestrictionId::Beach => 2,
            UnitTerrainRestrictionId::WaterBorne => 3,
            UnitTerrainRestrictionId::GroundBuilding => 4,
            UnitTerrainRestrictionId::CompletelyRestricted => 5,
            UnitTerrainRestrictionId::Dock => 6,
            UnitTerrainRestrictionId::GroundUnit => 7,
            UnitTerrainRestrictionId::ResourceSite => 8,
            UnitTerrainRestrictionId::Farm => 9,
            UnitTerrainRestrictionId::Wall => 10,
            UnitTerrainRestrictionId::Unknown(index) => index,
        }
    }
}

impl Default for UnitTerrainRestrictionId {
    fn default() -> (r: UnitTerrainRestrictionId)
        ensures
            r == UnitTerrainRestrictionId::Flying,
    {
        UnitTerrainRestrictionId::Flying
    }
}

/// The index of a restriction class read back from its index is that index.
pub proof fn lemma_restriction_index_roundtrip(index: usize)
    ensures
        index_of_restriction(restriction_of_index(index)) == index,
        canonical_restriction(restriction_of_index(index)),
{
}

/// A restriction class as the table produces it is recovered from its index.
pub proof fn lemma_restriction_class_roundtrip(id: UnitTerrainRestrictionId)
    requires
        canonical_restriction(id),
    ensures
        restriction_of_index(index_of_restriction(id)) == id,
{
}

/// An identifier that the data files must hold: `-1` marks an absent one and
/// is not accepted here. Other values are taken as the index they encode
/// (negative values wrap around, as a cast to `usize` does).
pub fn required_id(id: i64) -> (r: usize)
    requires
        id != -1,
    ensures
        r == id as usize,
{
    #[verifier::truncate] (id as usize)
}

/// An identifier that the data files may leave out: `-1` marks an absent one.
pub fn optional_id(id: i64) -> (r: Option<usize>)
    ensures
        id == -1 ==> r is None,
        id != -1 ==> r == Some(id as usize),
{
    if id == -1 {
        None
    } else {
        Some(#[verifier::truncate] (id as usize))
    }
}

} // verus!
