//! What is known of each shape of the graphics archive without decoding it:
//! the number of frames its SLP file holds.

use vstd::prelude::*;
use crate::bytes::{available, u32_at};
use crate::file_formats::drs::{contents_of, lemma_ids_found, table_of_type, DrsFile, DrsFileType, DrsLogicalTable};
use crate::file_formats::slp::{version_ok, SlpHeader};
use crate::identifier::SlpFileId;
use crate::resource::drs_manager::{key_index, tables_indexed, DrsKey, DrsManager};
use std::collections::HashMap;

verus! {

/// Names a shape: the archive and the ID of its SLP file there.
#[derive(Debug, Hash, Eq, PartialEq, Clone, Copy)]
pub struct ShapeMetadataKey {
    pub drs_key: DrsKey,
    pub slp_id: SlpFileId,
}

impl ShapeMetadataKey {
    pub fn new(drs_key: DrsKey, slp_id: SlpFileId) -> (r: ShapeMetadataKey)
        ensures
            r.drs_key == drs_key,
            r.slp_id == slp_id,
    {
        ShapeMetadataKey { drs_key: drs_key, slp_id: slp_id }
    }
}

/// What is known of a shape.
#[derive(Debug, Clone, Copy)]
pub struct ShapeMetadata {
    /// The number of frames in its SLP file.
    pub shape_count: u32,
}

/// The frame count that the header of an SLP file gives, when the file
/// starts with a valid header.
pub open spec fn header_shape_count(c: Seq<u8>) -> Option<u32> {
    if available(c, 0, 32) && version_ok(c, 0) {
        Some(u32_at(c, 4))
    } else {
        None
    }
}

/// Whether some entry of the table carries the file ID `id`.
pub open spec fn has_entry(t: DrsLogicalTable, id: u32) -> bool {
    exists|j: int| 0 <= j < t.entries@.len() && (#[trigger] t.entries@[j]).file_id == id
}

/// The table holds a file with ID `id`, and it starts with a valid SLP header.
pub open spec fn header_readable(t: DrsLogicalTable, id: u32) -> bool {
    match contents_of(t.entries@, t.contents@, id) {
        Some(c) => header_shape_count(c) is Some,
        None => false,
    }
}

/// Every file of the table starts with a valid SLP header.
pub open spec fn headers_readable(t: DrsLogicalTable) -> bool {
    forall|j: int| 0 <= j < t.entries@.len() ==> header_readable(t, (#[trigger] t.entries@[j]).file_id)
}

/// The frame count recorded for `key` when the metadata is loaded from the
/// graphics archive `graphics`: that of each SLP file of its first SLP table.
pub open spec fn metadata_of(graphics: DrsFile, key: ShapeMetadataKey) -> Option<u32> {
    match table_of_type(graphics.tables@, DrsFileType::Slp) {
        Some(t) => if key.drs_key == DrsKey::Graphics && has_entry(t, key.slp_id.0) {
            match contents_of(t.entries@, t.contents@, key.slp_id.0) {
                Some(c) => header_shape_count(c),
                None => None,
            }
        } else {
            None
        },
        None => None,
    }
}

/// The number under which the store holds the metadata of `key`: the
/// archive's position in the loading order in the high 32 bits, the SLP file
/// ID in the low 32 bits.
pub open spec fn metadata_code(key: ShapeMetadataKey) -> u64 {
    (key_index(key.drs_key) * 0x1_0000_0000 + key.slp_id.0) as u64
}

/// Different keys are held under different numbers.
pub proof fn lemma_metadata_code_injective(a: ShapeMetadataKey, b: ShapeMetadataKey)
    requires
        metadata_code(a) == metadata_code(b),
    ensures
        a == b,
{
    assert(a.slp_id.0 == b.slp_id.0 && key_index(a.drs_key) == key_index(b.drs_key));
    assert(a.slp_id == b.slp_id);
}

impl ShapeMetadataKey {
    /// The number under which the store holds this key.
    fn code(&self) -> (c: u64)
        ensures
            c == metadata_code(*self),
    {
        let i = self.drs_key.index() as u64;
        i * 0x1_0000_0000u64 + self.slp_id.0 as u64
    }
}

/// The frame counts of the shapes of the graphics archive, keyed by
/// `metadata_code`.
pub struct ShapeMetadataStore {
    metadata: HashMap<u64, ShapeMetadata>,
}

impl ShapeMetadataStore {
    /// The frame count held for `key`, if one is held.
    pub closed spec fn count_of(&self, key: ShapeMetadataKey) -> Option<u32> {
        if self.metadata@.contains_key(metadata_code(key)) {
            Some(self.metadata@[metadata_code(key)].shape_count)
        } else {
            None
        }
    }

    /// Every number held is that of some key.
    pub closed spec fn wf(&self) -> bool {
        forall|c: u64| #[trigger] self.metadata@.contains_key(c) ==> c / 0x1_0000_0000 < 5
    }

    /// Holds `shape_count` for `key`, in place of what was held for it.
    fn insert(&mut self, key: ShapeMetadataKey, shape_count: u32)
        requires
            old(self).wf(),
        ensures
            final(self).wf(),
            forall|k: ShapeMetadataKey| #[trigger] final(self).count_of(k)
                == if k == key { Some(shape_count) } else { old(self).count_of(k) },
    {
        broadcast use vstd::std_specs::hash::group_hash_axioms;
        let c = key.code();
        self.metadata.insert(c, ShapeMetadata { shape_count });
        assert forall|k: ShapeMetadataKey| #[trigger] self.count_of(k)
            == if k == key { Some(shape_count) } else { old(self).count_of(k) } by {
            if metadata_code(k) == c {
                lemma_metadata_code_injective(k, key);
            }
        }
    }

    /// Loads the frame count of each SLP file of the first SLP table of the
    /// graphics archive, reading the SLP header of each; `None` when one of
    /// them does not start with a valid header. Without an SLP table the
    /// store is empty.
    pub fn load_checked(drs_manager: &DrsManager) -> (r: Option<ShapeMetadataStore>)
        requires
            drs_manager.wf(),
            drs_manager.file_of(DrsKey::Graphics) is Some,
        ensures
            ({
                let g = drs_manager.file_of(DrsKey::Graphics)->0;
                match r {
                    Some(s) => (table_of_type(g.tables@, DrsFileType::Slp) matches Some(t) ==> headers_readable(t))
                        && s.wf() && forall|k: ShapeMetadataKey| #[trigger] s.count_of(k) == metadata_of(g, k),
                    None => table_of_type(g.tables@, DrsFileType::Slp) matches Some(t) && !headers_readable(t),
                }
            }),
    {
        let drs = drs_manager.get(DrsKey::Graphics);
        let mut store = ShapeMetadataStore { metadata: HashMap::new() };
        let ghost g = *drs;
        match drs.find_table(DrsFileType::Slp) {
            None => {
                assert forall|k: ShapeMetadataKey| #[trigger] store.count_of(k) == metadata_of(g, k) by {}
                Some(store)
            },
            Some(table) => {
                let ghost t = *table;
                proof {
                    let i = choose|i: int| 0 <= i < g.tables@.len() && g.tables@[i] == t;
                    assert(tables_indexed(g));
                    assert(g.tables@[i].is_indexed());
                    lemma_ids_found(t.entries@, t.entries@.len() as int);
                }
                let mut j: usize = 0;
                while j < table.entries.len()
                    invariant
                        j <= t.entries@.len(),
                        t == *table,
                        t.is_indexed(),
                        table_of_type(g.tables@, DrsFileType::Slp) == Some(t),
                        drs_manager.file_of(DrsKey::Graphics) == Some(g),
                        store.wf(),
                        forall|q: int| 0 <= q < j ==> header_readable(t, (#[trigger] t.entries@[q]).file_id),
                        forall|k: ShapeMetadataKey| #[trigger] store.count_of(k)
                            == if k.drs_key == DrsKey::Graphics && exists|q: int| 0 <= q < j && (#[trigger] t.entries@[q]).file_id == k.slp_id.0 {
                                match contents_of(t.entries@, t.contents@, k.slp_id.0) {
                                    Some(c) => header_shape_count(c),
                                    None => None,
                                }
                            } else {
                                None
                            },
                        forall|id: u32| #[trigger] crate::file_formats::drs::index_of_ids(t.entries@, t.entries@.len() as int).contains_key(id)
                            <==> exists|q: int| 0 <= q < t.entries@.len() && (#[trigger] t.entries@[q]).file_id == id,
                    decreases t.entries@.len() - j,
                {
                    let id = table.entries[j].file_id;
                    assert(t.entries@[j as int].file_id == id);
                    let contents = table.find_file_contents(id).unwrap();
                    let mut pos: u64 = 0;
                    let count = match SlpHeader::read_from_file(contents.as_slice(), &mut pos) {
                        Ok(h) => h.shape_count,
                        Err(_) => {
                            assert(contents_of(t.entries@, t.contents@, t.entries@[j as int].file_id) == Some(contents@));
                            assert(!header_readable(t, t.entries@[j as int].file_id));
                            return None;
                        },
                    };
                    let key = ShapeMetadataKey::new(DrsKey::Graphics, SlpFileId(id));
                    let ghost before = store;
                    store.insert(key, count);
                    assert forall|k: ShapeMetadataKey| #[trigger] store.count_of(k)
                        == if k.drs_key == DrsKey::Graphics && exists|q: int| 0 <= q < j + 1 && (#[trigger] t.entries@[q]).file_id == k.slp_id.0 {
                            match contents_of(t.entries@, t.contents@, k.slp_id.0) {
                                Some(c) => header_shape_count(c),
                                None => None,
                            }
                        } else {
                            None
                        } by {
                        if k == key {
                            assert(t.entries@[j as int].file_id == k.slp_id.0);
                        } else if k.drs_key == DrsKey::Graphics && exists|q: int| 0 <= q < j + 1 && (#[trigger] t.entries@[q]).file_id == k.slp_id.0 {
                            let q = choose|q: int| 0 <= q < j + 1 && (#[trigger] t.entries@[q]).file_id == k.slp_id.0;
                            if q == j {
                                assert(k.slp_id.0 == id);
                                assert(k == key);
                            }
                        }
                    }
                    j = j + 1;
                }
                assert forall|k: ShapeMetadataKey| #[trigger] store.count_of(k) == metadata_of(g, k) by {}
                Some(store)
            },
        }
    }

    /// Loads the frame counts as `load_checked` does; every SLP file of the
    /// first SLP table of the graphics archive must start with a valid header.
    pub fn load(drs_manager: &DrsManager) -> (r: ShapeMetadataStore)
        requires
            drs_manager.wf(),
            drs_manager.file_of(DrsKey::Graphics) matches Some(g)
                && (table_of_type(g.tables@, DrsFileType::Slp) matches Some(t) ==> headers_readable(t)),
        ensures
            r.wf(),
            forall|k: ShapeMetadataKey| #[trigger] r.count_of(k)
                == metadata_of(drs_manager.file_of(DrsKey::Graphics)->0, k),
    {
        ShapeMetadataStore::load_checked(drs_manager).unwrap()
    }

    /// The metadata held for `key`.
    pub fn get(&self, key: &ShapeMetadataKey) -> (r: Option<&ShapeMetadata>)
        requires
            self.wf(),
        ensures
            match self.count_of(*key) {
                Some(c) => r matches Some(m) && m.shape_count == c,
                None => r is None,
            },
    {
        broadcast use vstd::std_specs::hash::group_hash_axioms;
        let c = key.code();
        self.metadata.get(&c)
    }
}

} // verus!
