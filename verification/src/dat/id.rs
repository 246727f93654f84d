//! Identifiers of the empires database, kept as the signed values the data holds.

use vstd::prelude::*;

verus! {

/// ID for player colors in the empires.dat file
#[derive(Default, Clone, Copy, Debug, PartialEq, Eq)]
pub struct PlayerColorId(pub isize);

/// ID for an SLP file in a DRS package
#[derive(Default, Clone, Copy, Debug, PartialEq, Eq)]
pub struct SlpFileId(pub isize);

/// ID for a WAV file in a DRS package
#[derive(Default, Clone, Copy, Debug, PartialEq, Eq)]
pub struct WavFileId(pub isize);

/// ID for a graphic in the empires.dat file
#[derive(Default, Clone, Copy, Debug, PartialEq, Eq)]
pub struct GraphicId(pub isize);

/// ID for a sound group in the empires.dat file
#[derive(Default, Clone, Copy, Debug, PartialEq, Eq)]
pub struct SoundGroupId(pub isize);

/// ID for an age (that defines effects for research) in the empires.dat file
#[derive(Default, Clone, Copy, Debug, PartialEq, Eq)]
pub struct AgeId(pub isize);

/// ID for research in the empires.dat file
#[derive(Default, Clone, Copy, Debug, PartialEq, Eq)]
pub struct ResearchId(pub isize);

/// ID for units in the empires.dat file
#[derive(Default, Clone, Copy, Debug, PartialEq, Eq)]
pub struct UnitId(pub isize);

/// ID for unit classes in the empires.dat file
#[derive(Default, Clone, Copy, Debug, PartialEq, Eq)]
pub struct UnitClassId(pub isize);

/// ID for unit commands in the empires.dat file
#[derive(Default, Clone, Copy, Debug, PartialEq, Eq)]
pub struct UnitCommandId(pub isize);

/// ID for finding a localized string in language.dll
#[derive(Default, Clone, Copy, Debug, PartialEq, Eq)]
pub struct LocalizationId(pub isize);

/// ID for random map script references in the empires.dat file
#[derive(Default, Clone, Copy, Debug, PartialEq, Eq)]
pub struct RandomMapScriptId(pub isize);

/// ID for terrains defined in empires.dat
#[derive(Default, Clone, Copy, Debug, PartialEq, Eq)]
pub struct TerrainId(pub isize);

} // verus!
