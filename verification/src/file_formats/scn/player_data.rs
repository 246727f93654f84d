//! The player data of a scenario: names, civilizations, texts, the preview
//! thumbnail, AI settings, starting resources, victory conditions and diplomacy.

use vstd::prelude::*;
use crate::layout::{field_value, fields_read, num, push_repeat, repeat, text, values_view, num_at, text_at, read_fields, Field, FieldValue, Value};
use crate::bytes::{available, read_bytes, read_u16, read_u32, u16_at, u32_at, StreamError};

verus! {

/// The player data of a scenario. The version is the raw bits of a 32-bit float.
#[derive(Default, Debug)]
pub struct PlayerData {
    pub version: u32,
    pub player_names: Vec<String>,
    pub player_civs: Vec<PlayerCivilization>,
    pub conquest_victory: bool,
    pub unknown1: Vec<u8>,
    pub original_file_name: String,
    pub instructions: String,
    pub hints: String,
    pub victory: String,
    pub loss: String,
    pub history: String,
    pub pre_game_cinematic_file_name: String,
    pub victory_cinematic_file_name: String,
    pub loss_cinematic_file_name: String,
    pub background_file_name: String,
    pub preview_thumbnail: PreviewThumbnail,
    pub ai_names: Vec<String>,
    pub city_names: Vec<String>,
    pub personality_names: Vec<String>,
    pub ai_script_configs: Vec<AiScriptConfig>,
    pub ai_types: Vec<u8>,
    pub player_starting_resources: Vec<PlayerStartingResources>,
    pub victory_conditions: VictoryConditions,
    pub diplomacy: Diplomacy,
    pub allied_victory: Vec<u32>,
    pub disabled_research_ids: Vec<Vec<u32>>,
    pub unused1: u32,
    pub unused2: u32,
    pub all_techs: bool,
    pub starting_ages: Vec<u32>,
}

#[derive(Default, Debug, Clone, Copy, PartialEq, Eq)]
pub struct PlayerCivilization {
    pub state: u32,
    pub type_id: u32,
    pub civilization_id: u32,
    pub unknown1: u32,
}

#[derive(Default, Debug, Clone, Copy, PartialEq, Eq)]
pub struct PlayerStartingResources {
    pub gold: u32,
    pub wood: u32,
    pub food: u32,
    pub stone: u32,
}

#[derive(Default, Debug)]
pub struct PreviewThumbnail {
    pub included: bool,
    pub width: u32,
    pub height: u32,
    pub unknown1: Vec<u8>,
    pub pixel_data_length: u32,
    pub unknown2: Vec<u8>,
    pub pixel_data: Vec<u8>,
}

#[derive(Default, Debug)]
pub struct AiScriptConfig {
    pub ai_file_name: String,
    pub city_file_name: String,
    pub personality_file_name: String,
}

#[derive(Default, Debug, Clone, Copy, PartialEq, Eq)]
pub struct VictoryConditions {
    pub conquest_required: bool,
    pub unused1: u32,
    pub required_relic_count: u32,
    pub unused2: u32,
    pub required_exploration_percent: u32,
    pub unused3: u32,
    pub all_conditions_required: bool,
    pub victory_mode: u32,
    pub score_required: u32,
    pub timed_game_time: u32,
}

#[derive(Default, Debug)]
pub struct Diplomacy {
    pub stances: Vec<Vec<u32>>,
    pub individual_victory: Vec<Vec<u32>>,
}

/// A text preceded by its 16-bit length, at `p`.
pub open spec fn pascal_read(d: Seq<u8>, p: int) -> Result<(Seq<char>, int), StreamError> {
    if !available(d, p, 2) {
        Err(StreamError::UnexpectedEof)
    } else {
        match field_value(d, p + 2, Field::Text(u16_at(d, p) as u32)) {
            Err(e) => Err(e),
            Ok(v) => Ok((text(seq![v], 0), p + 2 + u16_at(d, p))),
        }
    }
}

/// `n` such texts one after another.
pub open spec fn pascals_read(d: Seq<u8>, p: int, n: nat) -> Result<(Seq<Seq<char>>, int), StreamError>
    decreases n,
{
    if n == 0 {
        Ok((Seq::empty(), p))
    } else {
        match pascals_read(d, p, (n - 1) as nat) {
            Err(e) => Err(e),
            Ok((ts, q)) => match pascal_read(d, q) {
                Err(e) => Err(e),
                Ok((t, e)) => Ok((ts.push(t), e)),
            },
        }
    }
}

/// The values of a thumbnail.
pub struct ThumbnailValues {
    pub included: bool,
    pub width: u32,
    pub height: u32,
    pub unknown1: Seq<u8>,
    pub pixel_data_length: u32,
    pub unknown2: Seq<u8>,
    pub pixel_data: Seq<u8>,
}

/// The preview thumbnail at `p`: whether it is included, its size, then,
/// when included, 22 unknown bytes, its data length plus 40, 16 unknown bytes
/// and the pixel data; when not, two unknown bytes. `None` where the stored
/// length is under 40.
pub open spec fn thumbnail_read(d: Seq<u8>, p: int) -> Option<Result<(ThumbnailValues, int), StreamError>> {
    if !available(d, p, 12) {
        Some(Err(StreamError::UnexpectedEof))
    } else if u32_at(d, p) == 0 {
        if !available(d, p + 12, 2) {
            Some(Err(StreamError::UnexpectedEof))
        } else {
            Some(Ok((ThumbnailValues {
                included: false,
                width: u32_at(d, p + 4),
                height: u32_at(d, p + 8),
                unknown1: d.subrange(p + 12, p + 14),
                pixel_data_length: 0,
                unknown2: Seq::empty(),
                pixel_data: Seq::empty(),
            }, p + 14)))
        }
    } else if !available(d, p + 12, 26) {
        Some(Err(StreamError::UnexpectedEof))
    } else if u32_at(d, p + 34) < 40 {
        None
    } else {
        let len = u32_at(d, p + 34) - 40;
        if !available(d, p + 38, 16 + len) {
            Some(Err(StreamError::UnexpectedEof))
        } else {
            Some(Ok((ThumbnailValues {
                included: true,
                width: u32_at(d, p + 4),
                height: u32_at(d, p + 8),
                unknown1: d.subrange(p + 12, p + 34),
                pixel_data_length: len as u32,
                unknown2: d.subrange(p + 38, p + 54),
                pixel_data: d.subrange(p + 54, p + 54 + len),
            }, p + 54 + len)))
        }
    }
}

pub open spec fn thumbnail_matches(t: PreviewThumbnail, v: ThumbnailValues) -> bool {
    &&& t.included == v.included && t.width == v.width && t.height == v.height
    &&& t.unknown1@ == v.unknown1 && t.pixel_data_length == v.pixel_data_length
    &&& t.unknown2@ == v.unknown2 && t.pixel_data@ == v.pixel_data
}

/// An AI script configuration at `p`: three lengths, then three texts of those lengths.
pub open spec fn ai_config_read(d: Seq<u8>, p: int) -> Result<(Seq<Seq<char>>, int), StreamError> {
    match fields_read(d, p, seq![Field::U32, Field::U32, Field::U32]) {
        Err(e) => Err(e),
        Ok((lens, q)) => match fields_read(
            d,
            q,
            seq![Field::Text(num(lens, 0) as u32), Field::Text(num(lens, 1) as u32), Field::Text(num(lens, 2) as u32)],
        ) {
            Err(e) => Err(e),
            Ok((names, e)) => Ok((seq![text(names, 0), text(names, 1), text(names, 2)], e)),
        },
    }
}

/// `n` configurations one after another.
pub open spec fn ai_configs_read(d: Seq<u8>, p: int, n: nat) -> Result<(Seq<Seq<Seq<char>>>, int), StreamError>
    decreases n,
{
    if n == 0 {
        Ok((Seq::empty(), p))
    } else {
        match ai_configs_read(d, p, (n - 1) as nat) {
            Err(e) => Err(e),
            Ok((cs, q)) => match ai_config_read(d, q) {
                Err(e) => Err(e),
                Ok((c, e)) => Ok((cs.push(c), e)),
            },
        }
    }
}

/// The fields that open the player data: version, 16 names of 256 bytes, 16
/// civilizations (four values each), conquest victory and 8 unknown bytes.
pub open spec fn head_fields() -> Seq<Field> {
    seq![Field::F32] + repeat(seq![Field::Text(256)], 16) + repeat(seq![Field::U32], 64) + seq![Field::U8]
        + repeat(seq![Field::U8], 8)
}

/// The fields that close the player data: four AI types, 16 starting
/// resources (four values each), a separator, ten victory values, 16 by 16
/// stances, 16 by 180 individual victory values, a separator, 16 allied
/// victory values, 16 by 20 disabled research ids, two unused values, all
/// techs, 16 starting ages and a separator.
pub open spec fn tail_fields() -> Seq<Field> {
    repeat(seq![Field::U8], 4) + repeat(seq![Field::U32], 64) + seq![Field::I32] + repeat(seq![Field::U32], 10)
        + repeat(seq![Field::U32], 256) + repeat(seq![Field::U32], 2880) + seq![Field::I32]
        + repeat(seq![Field::U32], 16) + repeat(seq![Field::U32], 320) + repeat(seq![Field::U32], 3)
        + repeat(seq![Field::U32], 16) + seq![Field::I32]
}

/// All values of the player data.
pub struct PlayerDataValues {
    pub head: Seq<FieldValue>,
    pub texts: Seq<Seq<char>>,
    pub thumbnail: ThumbnailValues,
    pub ai_texts: Seq<Seq<char>>,
    pub configs: Seq<Seq<Seq<char>>>,
    pub tail: Seq<FieldValue>,
    pub end: int,
}

/// The player data at `p`; `None` where the thumbnail's stored length is under 40.
pub open spec fn player_data_read(d: Seq<u8>, p: int) -> Option<Result<PlayerDataValues, StreamError>> {
    match fields_read(d, p, head_fields()) {
        Err(e) => Some(Err(e)),
        Ok((head, q1)) => match pascals_read(d, q1, 10) {
            Err(e) => Some(Err(e)),
            Ok((texts, q2)) => match thumbnail_read(d, q2) {
                None => None,
                Some(Err(e)) => Some(Err(e)),
                Some(Ok((thumbnail, q3))) => match pascals_read(d, q3, 48) {
                    Err(e) => Some(Err(e)),
                    Ok((ai_texts, q4)) => match ai_configs_read(d, q4, 16) {
                        Err(e) => Some(Err(e)),
                        Ok((configs, q5)) => match fields_read(d, q5, tail_fields()) {
                            Err(e) => Some(Err(e)),
                            Ok((tail, e)) => Some(Ok(PlayerDataValues { head, texts, thumbnail, ai_texts, configs, tail, end: e })),
                        },
                    },
                },
            },
        },
    }
}

/// The `n` values from `start`, as 32-bit values.
pub open spec fn u32s_at(vs: Seq<FieldValue>, start: int, n: nat) -> Seq<u32> {
    Seq::new(n, |j: int| num(vs, start + j) as u32)
}

/// The `n` values from `start`, as bytes.
pub open spec fn u8s_at(vs: Seq<FieldValue>, start: int, n: nat) -> Seq<u8> {
    Seq::new(n, |j: int| num(vs, start + j) as u8)
}

/// Whether `g` holds `rows` rows of `cols` values each, from `start`, row by row.
pub open spec fn grid_matches(g: Seq<Vec<u32>>, vs: Seq<FieldValue>, start: int, rows: nat, cols: nat) -> bool {
    &&& g.len() == rows
    &&& forall|i: int| 0 <= i < rows ==> (#[trigger] g[i])@ == u32s_at(vs, start + cols * i, cols)
}

/// The player data as its values give it.
pub open spec fn player_data_matches(x: PlayerData, v: PlayerDataValues) -> bool {
    let h = v.head;
    let t = v.tail;
    &&& x.version == num(h, 0) as u32
    &&& x.player_names@.len() == 16
    &&& forall|i: int| 0 <= i < 16 ==> (#[trigger] x.player_names@[i])@ == text(h, 1 + i)
    &&& x.player_civs@.len() == 16
    &&& forall|i: int| 0 <= i < 16 ==> #[trigger] x.player_civs@[i] == (PlayerCivilization {
        state: num(h, 17 + 4 * i) as u32,
        type_id: num(h, 18 + 4 * i) as u32,
        civilization_id: num(h, 19 + 4 * i) as u32,
        unknown1: num(h, 20 + 4 * i) as u32,
    })
    &&& x.conquest_victory == (num(h, 81) != 0)
    &&& x.unknown1@ == u8s_at(h, 82, 8)
    &&& x.original_file_name@ == v.texts[0] && x.instructions@ == v.texts[1] && x.hints@ == v.texts[2]
    &&& x.victory@ == v.texts[3] && x.loss@ == v.texts[4] && x.history@ == v.texts[5]
    &&& x.pre_game_cinematic_file_name@ == v.texts[6] && x.victory_cinematic_file_name@ == v.texts[7]
    &&& x.loss_cinematic_file_name@ == v.texts[8] && x.background_file_name@ == v.texts[9]
    &&& thumbnail_matches(x.preview_thumbnail, v.thumbnail)
    &&& x.ai_names@.len() == 16 && x.city_names@.len() == 16 && x.personality_names@.len() == 16
    &&& forall|i: int| 0 <= i < 16 ==> (#[trigger] x.ai_names@[i])@ == v.ai_texts[i]
    &&& forall|i: int| 0 <= i < 16 ==> (#[trigger] x.city_names@[i])@ == v.ai_texts[16 + i]
    &&& forall|i: int| 0 <= i < 16 ==> (#[trigger] x.personality_names@[i])@ == v.ai_texts[32 + i]
    &&& x.ai_script_configs@.len() == 16
    &&& forall|i: int| 0 <= i < 16 ==> {
        &&& (#[trigger] x.ai_script_configs@[i]).ai_file_name@ == v.configs[i][0]
        &&& x.ai_script_configs@[i].city_file_name@ == v.configs[i][1]
        &&& x.ai_script_configs@[i].personality_file_name@ == v.configs[i][2]
    }
    &&& x.ai_types@ == u8s_at(t, 0, 4)
    &&& x.player_starting_resources@.len() == 16
    &&& forall|i: int| 0 <= i < 16 ==> #[trigger] x.player_starting_resources@[i] == (PlayerStartingResources {
        gold: num(t, 4 + 4 * i) as u32,
        wood: num(t, 5 + 4 * i) as u32,
        food: num(t, 6 + 4 * i) as u32,
        stone: num(t, 7 + 4 * i) as u32,
    })
    &&& x.victory_conditions == (VictoryConditions {
        conquest_required: num(t, 69) != 0,
        unused1: num(t, 70) as u32,
        required_relic_count: num(t, 71) as u32,
        unused2: num(t, 72) as u32,
        required_exploration_percent: num(t, 73) as u32,
        unused3: num(t, 74) as u32,
        all_conditions_required: num(t, 75) != 0,
        victory_mode: num(t, 76) as u32,
        score_required: num(t, 77) as u32,
        timed_game_time: num(t, 78) as u32,
    })
    &&& grid_matches(x.diplomacy.stances@, t, 79, 16, 16)
    &&& grid_matches(x.diplomacy.individual_victory@, t, 335, 16, 180)
    &&& x.allied_victory@ == u32s_at(t, 3216, 16)
    &&& grid_matches(x.disabled_research_ids@, t, 3232, 16, 20)
    &&& x.unused1 == num(t, 3552) as u32 && x.unused2 == num(t, 3553) as u32
    &&& x.all_techs == (num(t, 3554) != 0)
    &&& x.starting_ages@ == u32s_at(t, 3555, 16)
}


/// Reads a text preceded by its 16-bit length.
fn read_pascal_string(data: &[u8], pos: &mut u64) -> (r: Result<String, StreamError>)
    ensures
        match pascal_read(data@, *old(pos) as int) {
            Ok((t, e)) => r matches Ok(s) && s@ == t && *final(pos) == e,
            Err(e) => r == Err::<String, StreamError>(e),
        },
{
    let length = read_u16(data, pos)?;
    let layout = [Field::Text(length as u32)];
    let ghost q = *pos as int;
    proof {
        assert(layout@.drop_last() =~= Seq::<Field>::empty());
        assert(layout@.last() == Field::Text(length as u32));
        assert(fields_read(data@, q, layout@.drop_last()) == Ok::<(Seq<FieldValue>, int), StreamError>((Seq::<FieldValue>::empty(), q)));
    }
    let v = read_fields(data, pos, &layout)?;
    proof {
        let fv = field_value(data@, q, Field::Text(length as u32))->Ok_0;
        assert(values_view(v@) =~= seq![fv]);
    }
    Ok(text_at(&v, 0))
}

/// Reads `n` texts, each preceded by its length.
fn read_pascal_strings(data: &[u8], pos: &mut u64, n: usize) -> (r: Result<Vec<String>, StreamError>)
    ensures
        match pascals_read(data@, *old(pos) as int, n as nat) {
            Ok((ts, e)) => r matches Ok(v) && *final(pos) == e && v@.len() == n
                && forall|i: int| 0 <= i < n ==> (#[trigger] v@[i])@ == ts[i],
            Err(e) => r == Err::<Vec<String>, StreamError>(e),
        },
{
    let ghost p0 = *pos as int;
    let mut out: Vec<String> = Vec::new();
    let ghost mut ts: Seq<Seq<char>> = Seq::empty();
    let mut i: usize = 0;
    while i < n
        invariant
            i <= n,
            p0 == *old(pos),
            pascals_read(data@, p0, i as nat) == Ok::<(Seq<Seq<char>>, int), StreamError>((ts, *pos as int)),
            ts.len() == i,
            out@.len() == i,
            forall|j: int| 0 <= j < i ==> (#[trigger] out@[j])@ == ts[j],
        decreases n - i,
    {
        let ghost q = *pos as int;
        match read_pascal_string(data, pos) {
            Ok(s) => {
                proof {
                    ts = ts.push(pascal_read(data@, q)->Ok_0.0);
                }
                out.push(s);
            },
            Err(e) => {
                proof {
                    lemma_pascals_error_stays(data@, p0, (i + 1) as nat, n as nat);
                }
                return Err(e);
            },
        }
        i = i + 1;
    }
    Ok(out)
}

proof fn lemma_pascals_error_stays(d: Seq<u8>, p: int, i: nat, n: nat)
    requires
        i <= n,
        pascals_read(d, p, i) is Err,
    ensures
        pascals_read(d, p, n) == pascals_read(d, p, i),
    decreases n - i,
{
    if i < n {
        lemma_pascals_error_stays(d, p, i + 1, n);
    }
}

proof fn lemma_configs_error_stays(d: Seq<u8>, p: int, i: nat, n: nat)
    requires
        i <= n,
        ai_configs_read(d, p, i) is Err,
    ensures
        ai_configs_read(d, p, n) == ai_configs_read(d, p, i),
    decreases n - i,
{
    if i < n {
        lemma_configs_error_stays(d, p, i + 1, n);
    }
}

/// Reads the preview thumbnail; `None` where its stored length is under 40.
fn read_preview_thumbnail(data: &[u8], pos: &mut u64) -> (r: Option<Result<PreviewThumbnail, StreamError>>)
    ensures
        match thumbnail_read(data@, *old(pos) as int) {
            None => r is None,
            Some(Err(e)) => r == Some(Err::<PreviewThumbnail, StreamError>(e)),
            Some(Ok((v, e))) => r matches Some(Ok(t)) && thumbnail_matches(t, v) && *final(pos) == e,
        },
{
    let included = match read_u32(data, pos) { Ok(v) => v, Err(e) => return Some(Err(e)) };
    let width = match read_u32(data, pos) { Ok(v) => v, Err(e) => return Some(Err(e)) };
    let height = match read_u32(data, pos) { Ok(v) => v, Err(e) => return Some(Err(e)) };
    if included != 0 {
        let unknown1 = match read_bytes(data, pos, 22) { Ok(v) => v, Err(e) => return Some(Err(e)) };
        let raw_length = match read_u32(data, pos) { Ok(v) => v, Err(e) => return Some(Err(e)) };
        if raw_length < 40 {
            return None;
        }
        let pixel_data_length = raw_length - 40;
        let unknown2 = match read_bytes(data, pos, 16) { Ok(v) => v, Err(e) => return Some(Err(e)) };
        let pixel_data = match read_bytes(data, pos, pixel_data_length as u64) { Ok(v) => v, Err(e) => return Some(Err(e)) };
        Some(Ok(PreviewThumbnail { included: true, width, height, unknown1, pixel_data_length, unknown2, pixel_data }))
    } else {
        let unknown1 = match read_bytes(data, pos, 2) { Ok(v) => v, Err(e) => return Some(Err(e)) };
        Some(Ok(PreviewThumbnail {
            included: false,
            width,
            height,
            unknown1,
            pixel_data_length: 0,
            unknown2: Vec::new(),
            pixel_data: Vec::new(),
        }))
    }
}

/// Reads an AI script configuration.
fn read_ai_script_config(data: &[u8], pos: &mut u64) -> (r: Result<AiScriptConfig, StreamError>)
    ensures
        match ai_config_read(data@, *old(pos) as int) {
            Ok((c, e)) => r matches Ok(x) && x.ai_file_name@ == c[0] && x.city_file_name@ == c[1]
                && x.personality_file_name@ == c[2] && *final(pos) == e,
            Err(e) => r == Err::<AiScriptConfig, StreamError>(e),
        },
{
    let lengths = [Field::U32, Field::U32, Field::U32];
    assert(lengths@ == seq![Field::U32, Field::U32, Field::U32]);
    let lens = read_fields(data, pos, &lengths)?;
    assert(crate::layout::fits(lengths@[0], values_view(lens@)[0]));
    assert(crate::layout::fits(lengths@[1], values_view(lens@)[1]));
    assert(crate::layout::fits(lengths@[2], values_view(lens@)[2]));
    let names = [
        Field::Text(num_at(&lens, 0) as u32),
        Field::Text(num_at(&lens, 1) as u32),
        Field::Text(num_at(&lens, 2) as u32),
    ];
    let v = read_fields(data, pos, &names)?;
    Ok(AiScriptConfig { ai_file_name: text_at(&v, 0), city_file_name: text_at(&v, 1), personality_file_name: text_at(&v, 2) })
}

/// Reads `n` AI script configurations.
fn read_ai_script_configs(data: &[u8], pos: &mut u64, n: usize) -> (r: Result<Vec<AiScriptConfig>, StreamError>)
    ensures
        match ai_configs_read(data@, *old(pos) as int, n as nat) {
            Ok((cs, e)) => r matches Ok(v) && *final(pos) == e && v@.len() == n
                && forall|i: int| 0 <= i < n ==> {
                    &&& (#[trigger] v@[i]).ai_file_name@ == cs[i][0]
                    &&& v@[i].city_file_name@ == cs[i][1]
                    &&& v@[i].personality_file_name@ == cs[i][2]
                },
            Err(e) => r == Err::<Vec<AiScriptConfig>, StreamError>(e),
        },
{
    let ghost p0 = *pos as int;
    let mut out: Vec<AiScriptConfig> = Vec::new();
    let ghost mut cs: Seq<Seq<Seq<char>>> = Seq::empty();
    let mut i: usize = 0;
    while i < n
        invariant
            i <= n,
            p0 == *old(pos),
            ai_configs_read(data@, p0, i as nat) == Ok::<(Seq<Seq<Seq<char>>>, int), StreamError>((cs, *pos as int)),
            cs.len() == i,
            out@.len() == i,
            forall|j: int| 0 <= j < i ==> {
                &&& (#[trigger] out@[j]).ai_file_name@ == cs[j][0]
                &&& out@[j].city_file_name@ == cs[j][1]
                &&& out@[j].personality_file_name@ == cs[j][2]
            },
        decreases n - i,
    {
        let ghost q = *pos as int;
        match read_ai_script_config(data, pos) {
            Ok(c) => {
                proof {
                    cs = cs.push(ai_config_read(data@, q)->Ok_0.0);
                }
                out.push(c);
            },
            Err(e) => {
                proof {
                    lemma_configs_error_stays(data@, p0, (i + 1) as nat, n as nat);
                }
                return Err(e);
            },
        }
        i = i + 1;
    }
    Ok(out)
}

/// The `n` values from `start`, as 32-bit values.
fn u32s_from(vals: &Vec<Value>, start: usize, n: usize) -> (r: Vec<u32>)
    requires
        start + n <= vals@.len(),
    ensures
        r@ == u32s_at(values_view(vals@), start as int, n as nat),
{
    let _len = vals.len();
    let mut out: Vec<u32> = Vec::new();
    let mut j: usize = 0;
    while j < n
        invariant
            j <= n,
            start + n <= vals@.len() <= usize::MAX,
            out@ == u32s_at(values_view(vals@), start as int, j as nat),
        decreases n - j,
    {
        out.push(#[verifier::truncate] (num_at(vals, start + j) as u32));
        j = j + 1;
        assert(out@ =~= u32s_at(values_view(vals@), start as int, j as nat));
    }
    out
}

/// The `n` values from `start`, as bytes.
fn u8s_from(vals: &Vec<Value>, start: usize, n: usize) -> (r: Vec<u8>)
    requires
        start + n <= vals@.len(),
    ensures
        r@ == u8s_at(values_view(vals@), start as int, n as nat),
{
    let _len = vals.len();
    let mut out: Vec<u8> = Vec::new();
    let mut j: usize = 0;
    while j < n
        invariant
            j <= n,
            start + n <= vals@.len() <= usize::MAX,
            out@ == u8s_at(values_view(vals@), start as int, j as nat),
        decreases n - j,
    {
        out.push(#[verifier::truncate] (num_at(vals, start + j) as u8));
        j = j + 1;
        assert(out@ =~= u8s_at(values_view(vals@), start as int, j as nat));
    }
    out
}

/// `rows` rows of `cols` values each, from `start`.
fn grid_from(vals: &Vec<Value>, start: usize, rows: usize, cols: usize) -> (r: Vec<Vec<u32>>)
    requires
        start + rows * cols <= vals@.len(),
    ensures
        grid_matches(r@, values_view(vals@), start as int, rows as nat, cols as nat),
{
    let _len = vals.len();
    let mut out: Vec<Vec<u32>> = Vec::new();
    let mut i: usize = 0;
    while i < rows
        invariant
            i <= rows,
            start + rows * cols <= vals@.len() <= usize::MAX,
            out@.len() == i,
            forall|a: int| 0 <= a < i ==> (#[trigger] out@[a])@ == u32s_at(values_view(vals@), start + cols * a, cols as nat),
        decreases rows - i,
    {
        assert(start + cols * i + cols <= start + rows * cols) by (nonlinear_arith)
            requires
                i < rows,
                cols >= 0,
        ;
        out.push(u32s_from(vals, start + cols * i, cols));
        i = i + 1;
    }
    out
}

proof fn lemma_layout_lens()
    ensures
        head_fields().len() == 90,
        tail_fields().len() == 3572,
{
    crate::layout::lemma_repeat_len(seq![Field::Text(256)], 16);
    crate::layout::lemma_repeat_len(seq![Field::U32], 64);
    crate::layout::lemma_repeat_len(seq![Field::U8], 8);
    crate::layout::lemma_repeat_len(seq![Field::U8], 4);
    crate::layout::lemma_repeat_len(seq![Field::U32], 10);
    crate::layout::lemma_repeat_len(seq![Field::U32], 256);
    crate::layout::lemma_repeat_len(seq![Field::U32], 2880);
    crate::layout::lemma_repeat_len(seq![Field::U32], 16);
    crate::layout::lemma_repeat_len(seq![Field::U32], 320);
    crate::layout::lemma_repeat_len(seq![Field::U32], 3);
}

fn build_head_fields() -> (r: Vec<Field>)
    ensures
        r@ == head_fields(),
{
    let mut v: Vec<Field> = Vec::new();
    let float = [Field::F32];
    let name = [Field::Text(256)];
    let u32 = [Field::U32];
    let u8 = [Field::U8];
    push_repeat(&mut v, &float, 1);
    push_repeat(&mut v, &name, 16);
    push_repeat(&mut v, &u32, 64);
    push_repeat(&mut v, &u8, 1);
    push_repeat(&mut v, &u8, 8);
    proof {
        assert(repeat(float@, 1) == float@) by {
            assert(repeat(float@, 0) == Seq::<Field>::empty());
            assert(Seq::<Field>::empty() + float@ == float@);
        }
        assert(repeat(u8@, 1) == u8@) by {
            assert(repeat(u8@, 0) == Seq::<Field>::empty());
            assert(Seq::<Field>::empty() + u8@ == u8@);
        }
        assert(float@ == seq![Field::F32] && name@ == seq![Field::Text(256)]);
        assert(u32@ == seq![Field::U32] && u8@ == seq![Field::U8]);
    }
    v
}

fn build_tail_fields() -> (r: Vec<Field>)
    ensures
        r@ == tail_fields(),
{
    let mut v: Vec<Field> = Vec::new();
    let i32 = [Field::I32];
    let u32 = [Field::U32];
    let u8 = [Field::U8];
    push_repeat(&mut v, &u8, 4);
    push_repeat(&mut v, &u32, 64);
    push_repeat(&mut v, &i32, 1);
    push_repeat(&mut v, &u32, 10);
    push_repeat(&mut v, &u32, 256);
    push_repeat(&mut v, &u32, 2880);
    push_repeat(&mut v, &i32, 1);
    push_repeat(&mut v, &u32, 16);
    push_repeat(&mut v, &u32, 320);
    push_repeat(&mut v, &u32, 3);
    push_repeat(&mut v, &u32, 16);
    push_repeat(&mut v, &i32, 1);
    proof {
        assert(repeat(i32@, 1) == i32@) by {
            assert(repeat(i32@, 0) == Seq::<Field>::empty());
            assert(Seq::<Field>::empty() + i32@ == i32@);
        }
        assert(i32@ == seq![Field::I32] && u32@ == seq![Field::U32] && u8@ == seq![Field::U8]);
    }
    v
}

impl PlayerData {
    /// Reads the player data; `None` where the thumbnail's stored length is under 40.
    pub fn read_from_stream_checked(data: &[u8], pos: &mut u64) -> (r: Option<Result<PlayerData, StreamError>>)
        ensures
            match player_data_read(data@, *old(pos) as int) {
                None => r is None,
                Some(Err(e)) => r == Some(Err::<PlayerData, StreamError>(e)),
                Some(Ok(v)) => r matches Some(Ok(x)) && player_data_matches(x, v) && *final(pos) == v.end,
            },
    {
        proof {
            lemma_layout_lens();
        }
        let head_layout = build_head_fields();
        let head = match read_fields(data, pos, head_layout.as_slice()) { Ok(v) => v, Err(e) => return Some(Err(e)) };
        let ghost h = values_view(head@);
        let texts = match read_pascal_strings(data, pos, 10) { Ok(v) => v, Err(e) => return Some(Err(e)) };
        let preview_thumbnail = match read_preview_thumbnail(data, pos) {
            None => return None,
            Some(Ok(t)) => t,
            Some(Err(e)) => return Some(Err(e)),
        };
        let ai_texts = match read_pascal_strings(data, pos, 48) { Ok(v) => v, Err(e) => return Some(Err(e)) };
        let ai_script_configs = match read_ai_script_configs(data, pos, 16) { Ok(v) => v, Err(e) => return Some(Err(e)) };
        let tail_layout = build_tail_fields();
        let tail = match read_fields(data, pos, tail_layout.as_slice()) { Ok(v) => v, Err(e) => return Some(Err(e)) };
        let ghost t = values_view(tail@);

        let mut player_names: Vec<String> = Vec::new();
        let mut player_civs: Vec<PlayerCivilization> = Vec::new();
        let mut i: usize = 0;
        while i < 16
            invariant
                i <= 16,
                head@.len() == 90,
                h == values_view(head@),
                player_names@.len() == i && player_civs@.len() == i,
                forall|j: int| 0 <= j < i ==> (#[trigger] player_names@[j])@ == text(h, 1 + j),
                forall|j: int| 0 <= j < i ==> #[trigger] player_civs@[j] == (PlayerCivilization {
                    state: num(h, 17 + 4 * j) as u32,
                    type_id: num(h, 18 + 4 * j) as u32,
                    civilization_id: num(h, 19 + 4 * j) as u32,
                    unknown1: num(h, 20 + 4 * j) as u32,
                }),
            decreases 16 - i,
        {
            player_names.push(text_at(&head, 1 + i));
            player_civs.push(PlayerCivilization {
                state: #[verifier::truncate] (num_at(&head, 17 + 4 * i) as u32),
                type_id: #[verifier::truncate] (num_at(&head, 18 + 4 * i) as u32),
                civilization_id: #[verifier::truncate] (num_at(&head, 19 + 4 * i) as u32),
                unknown1: #[verifier::truncate] (num_at(&head, 20 + 4 * i) as u32),
            });
            i = i + 1;
        }

        let mut ai_names: Vec<String> = Vec::new();
        let mut city_names: Vec<String> = Vec::new();
        let mut personality_names: Vec<String> = Vec::new();
        let ghost at = ai_texts@;
        let mut k: usize = 0;
        while k < 16
            invariant
                k <= 16,
                ai_texts@.len() == 48,
                at == ai_texts@,
                ai_names@.len() == k && city_names@.len() == k && personality_names@.len() == k,
                forall|j: int| 0 <= j < k ==> (#[trigger] ai_names@[j])@ == at[j]@,
                forall|j: int| 0 <= j < k ==> (#[trigger] city_names@[j])@ == at[16 + j]@,
                forall|j: int| 0 <= j < k ==> (#[trigger] personality_names@[j])@ == at[32 + j]@,
            decreases 16 - k,
        {
            ai_names.push(ai_texts[k].clone());
            city_names.push(ai_texts[16 + k].clone());
            personality_names.push(ai_texts[32 + k].clone());
            k = k + 1;
        }

        let mut player_starting_resources: Vec<PlayerStartingResources> = Vec::new();
        let mut r: usize = 0;
        while r < 16
            invariant
                r <= 16,
                tail@.len() == 3572,
                t == values_view(tail@),
                player_starting_resources@.len() == r,
                forall|j: int| 0 <= j < r ==> #[trigger] player_starting_resources@[j] == (PlayerStartingResources {
                    gold: num(t, 4 + 4 * j) as u32,
                    wood: num(t, 5 + 4 * j) as u32,
                    food: num(t, 6 + 4 * j) as u32,
                    stone: num(t, 7 + 4 * j) as u32,
                }),
            decreases 16 - r,
        {
            player_starting_resources.push(PlayerStartingResources {
                gold: #[verifier::truncate] (num_at(&tail, 4 + 4 * r) as u32),
                wood: #[verifier::truncate] (num_at(&tail, 5 + 4 * r) as u32),
                food: #[verifier::truncate] (num_at(&tail, 6 + 4 * r) as u32),
                stone: #[verifier::truncate] (num_at(&tail, 7 + 4 * r) as u32),
            });
            r = r + 1;
        }

        let x = PlayerData {
            version: #[verifier::truncate] (num_at(&head, 0) as u32),
            player_names,
            player_civs,
            conquest_victory: num_at(&head, 81) != 0,
            unknown1: u8s_from(&head, 82, 8),
            original_file_name: texts[0].clone(),
            instructions: texts[1].clone(),
            hints: texts[2].clone(),
            victory: texts[3].clone(),
            loss: texts[4].clone(),
            history: texts[5].clone(),
            pre_game_cinematic_file_name: texts[6].clone(),
            victory_cinematic_file_name: texts[7].clone(),
            loss_cinematic_file_name: texts[8].clone(),
            background_file_name: texts[9].clone(),
            preview_thumbnail,
            ai_names,
            city_names,
            personality_names,
            ai_script_configs,
            ai_types: u8s_from(&tail, 0, 4),
            player_starting_resources,
            victory_conditions: VictoryConditions {
                conquest_required: num_at(&tail, 69) != 0,
                unused1: #[verifier::truncate] (num_at(&tail, 70) as u32),
                required_relic_count: #[verifier::truncate] (num_at(&tail, 71) as u32),
                unused2: #[verifier::truncate] (num_at(&tail, 72) as u32),
                required_exploration_percent: #[verifier::truncate] (num_at(&tail, 73) as u32),
                unused3: #[verifier::truncate] (num_at(&tail, 74) as u32),
                all_conditions_required: num_at(&tail, 75) != 0,
                victory_mode: #[verifier::truncate] (num_at(&tail, 76) as u32),
                score_required: #[verifier::truncate] (num_at(&tail, 77) as u32),
                timed_game_time: #[verifier::truncate] (num_at(&tail, 78) as u32),
            },
            diplomacy: Diplomacy { stances: grid_from(&tail, 79, 16, 16), individual_victory: grid_from(&tail, 335, 16, 180) },
            allied_victory: u32s_from(&tail, 3216, 16),
            disabled_research_ids: grid_from(&tail, 3232, 16, 20),
            unused1: #[verifier::truncate] (num_at(&tail, 3552) as u32),
            unused2: #[verifier::truncate] (num_at(&tail, 3553) as u32),
            all_techs: num_at(&tail, 3554) != 0,
            starting_ages: u32s_from(&tail, 3555, 16),
        };
        Some(Ok(x))
    }

    /// Reads the player data, where the thumbnail's stored length is at least 40.
    pub fn read_from_stream(data: &[u8], pos: &mut u64) -> (r: Result<PlayerData, StreamError>)
        requires
            player_data_read(data@, *old(pos) as int) is Some,
        ensures
            match player_data_read(data@, *old(pos) as int) {
                Some(Err(e)) => r == Err::<PlayerData, StreamError>(e),
                Some(Ok(v)) => r matches Ok(x) && player_data_matches(x, v) && *final(pos) == v.end,
                None => false,
            },
    {
        PlayerData::read_from_stream_checked(data, pos).unwrap()
    }
}

} // verus!
