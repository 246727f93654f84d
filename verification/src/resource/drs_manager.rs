//! The DRS archives of the game data directory, each read once and kept.

use vstd::prelude::*;
use crate::file_formats::drs::{drs_has_unknown_table, drs_read_fails_with, drs_readable, header_matches, tables_match, DrsError, DrsFile};
use crate::resource::game_dir::GameDir;

verus! {

/// The archives of the game data directory.
#[derive(PartialEq, Eq, Structural, Hash, Copy, Clone, Debug)]
pub enum DrsKey {
    Border,
    Graphics,
    Interfac,
    Sounds,
    Terrain,
}

/// The position of an archive in the order in which they are loaded.
pub open spec fn key_index(k: DrsKey) -> int {
    match k {
        DrsKey::Border => 0,
        DrsKey::Graphics => 1,
        DrsKey::Interfac => 2,
        DrsKey::Sounds => 3,
        DrsKey::Terrain => 4,
    }
}

/// The archive at position `i` (0 to 4) in the order in which they are loaded.
pub open spec fn key_at(i: int) -> DrsKey {
    if i == 0 {
        DrsKey::Border
    } else if i == 1 {
        DrsKey::Graphics
    } else if i == 2 {
        DrsKey::Interfac
    } else if i == 3 {
        DrsKey::Sounds
    } else {
        DrsKey::Terrain
    }
}

/// The path of an archive, relative to the game data directory.
pub open spec fn key_path(k: DrsKey) -> Seq<char> {
    match k {
        DrsKey::Border => "data/border.drs"@,
        DrsKey::Graphics => "data/graphics.drs"@,
        DrsKey::Interfac => "data/interfac.drs"@,
        DrsKey::Sounds => "data/sounds.drs"@,
        DrsKey::Terrain => "data/terrain.drs"@,
    }
}

impl DrsKey {
    /// The path of the archive, relative to the game data directory.
    pub fn path(&self) -> (r: &'static str)
        ensures
            r@ == key_path(*self),
    {
        match *self {
            DrsKey::Border => "data/border.drs",
            DrsKey::Graphics => "data/graphics.drs",
            DrsKey::Interfac => "data/interfac.drs",
            DrsKey::Sounds => "data/sounds.drs",
            DrsKey::Terrain => "data/terrain.drs",
        }
    }

    pub(crate) fn index(&self) -> (r: usize)
        ensures
            r == key_index(*self),
    {
        match *self {
            DrsKey::Border => 0,
            DrsKey::Graphics => 1,
            DrsKey::Interfac => 2,
            DrsKey::Sounds => 3,
            DrsKey::Terrain => 4,
        }
    }
}

/// Every table of the archive can be searched by file ID.
pub open spec fn tables_indexed(f: DrsFile) -> bool {
    forall|i: int| 0 <= i < f.tables@.len() ==> (#[trigger] f.tables@[i]).is_indexed()
}

/// `f` is what reading the archive bytes `bytes` gives.
pub open spec fn archive_of(bytes: Seq<u8>, f: DrsFile) -> bool {
    drs_readable(bytes) && header_matches(bytes, f.header) && tables_match(bytes, f.tables@)
}

/// Why loading an archive failed.
#[derive(Debug)]
pub enum LoadError<E> {
    /// Its file could not be found or read.
    Read(E),
    /// Its bytes are not a valid archive.
    Drs(DrsError),
    /// It has a table of a file type that the format does not define.
    UnknownFileType,
}

/// `f` is the archive read from bytes that `read_file` can give for `k`.
pub open spec fn loaded_by<E, F: Fn(DrsKey) -> Result<Vec<u8>, E>>(read_file: F, k: DrsKey, f: DrsFile) -> bool {
    exists|b: Vec<u8>| call_ensures(read_file, (k,), Ok::<Vec<u8>, E>(b)) && #[trigger] archive_of(b@, f)
}

/// Loading the archive `k` with `read_file` can end with error `e`.
pub open spec fn fails_with<E, F: Fn(DrsKey) -> Result<Vec<u8>, E>>(read_file: F, k: DrsKey, e: LoadError<E>) -> bool {
    match e {
        LoadError::Read(x) => call_ensures(read_file, (k,), Err::<Vec<u8>, E>(x)),
        LoadError::Drs(d) => exists|b: Vec<u8>| call_ensures(read_file, (k,), Ok::<Vec<u8>, E>(b))
            && #[trigger] drs_read_fails_with(b@, d),
        LoadError::UnknownFileType => exists|b: Vec<u8>| call_ensures(read_file, (k,), Ok::<Vec<u8>, E>(b))
            && #[trigger] drs_has_unknown_table(b@),
    }
}

/// Holds the archives of a game data directory once they are loaded.
pub struct DrsManager {
    game_dir: GameDir,
    resources: Vec<Option<DrsFile>>,
}

impl DrsManager {
    /// The loaded archive `k`, if it is loaded.
    pub closed spec fn file_of(&self, k: DrsKey) -> Option<DrsFile> {
        self.resources@[key_index(k)]
    }

    /// The game data directory whose archives these are.
    pub closed spec fn dir(&self) -> GameDir {
        self.game_dir
    }

    /// There is a place for every archive, and each loaded one can be searched.
    pub closed spec fn wf(&self) -> bool {
        &&& self.resources@.len() == 5
        &&& forall|i: int| 0 <= i < 5 ==> (#[trigger] self.resources@[i] matches Some(f) ==> tables_indexed(f))
    }

    /// A manager of the archives of `game_dir`, with none of them loaded yet.
    pub fn new(game_dir: &GameDir) -> (r: DrsManager)
        ensures
            r.wf(),
            r.dir() == *game_dir,
            forall|k: DrsKey| #[trigger] r.file_of(k) is None,
    {
        let mut resources: Vec<Option<DrsFile>> = Vec::new();
        resources.push(None);
        resources.push(None);
        resources.push(None);
        resources.push(None);
        resources.push(None);
        DrsManager { game_dir: GameDir { dir: game_dir.dir.clone() }, resources }
    }

    /// The game data directory whose archives these are.
    pub fn game_dir(&self) -> (r: &GameDir)
        ensures
            *r == self.dir(),
    {
        &self.game_dir
    }

    /// Whether the archive `drs_key` is loaded.
    pub fn is_loaded(&self, drs_key: DrsKey) -> (r: bool)
        requires
            self.wf(),
        ensures
            r == self.file_of(drs_key) is Some,
    {
        self.resources[drs_key.index()].is_some()
    }

    /// The loaded archive `drs_key`; it must have been loaded.
    pub fn get(&self, drs_key: DrsKey) -> (r: &DrsFile)
        requires
            self.wf(),
            self.file_of(drs_key) is Some,
        ensures
            self.file_of(drs_key) == Some(*r),
            tables_indexed(*r),
    {
        let i = drs_key.index();
        assert(self.resources@[i as int] matches Some(f) ==> tables_indexed(f));
        self.resources[i].as_ref().unwrap()
    }

    /// Loads the five archives in turn (border, graphics, interfac, sounds,
    /// terrain), `read_file` giving the bytes of each; a loaded archive
    /// replaces the one held before. Stops at the first that fails, the
    /// archives after it left as they were.
    pub fn preload<E, F: Fn(DrsKey) -> Result<Vec<u8>, E>>(&mut self, read_file: F) -> (r: Result<(), LoadError<E>>)
        requires
            old(self).wf(),
            forall|k: DrsKey| call_requires(read_file, (k,)),
        ensures
            final(self).wf(),
            final(self).dir() == old(self).dir(),
            match r {
                Ok(()) => forall|k: DrsKey| #[trigger] final(self).file_of(k) matches Some(f) && loaded_by(read_file, k, f),
                Err(e) => exists|n: int| 0 <= n < 5 && #[trigger] fails_with(read_file, key_at(n), e)
                    && forall|k: DrsKey| #![trigger final(self).file_of(k)] {
                        &&& key_index(k) < n ==> (final(self).file_of(k) matches Some(f) && loaded_by(read_file, k, f))
                        &&& key_index(k) >= n ==> final(self).file_of(k) == old(self).file_of(k)
                    },
            },
    {
        let keys = [DrsKey::Border, DrsKey::Graphics, DrsKey::Interfac, DrsKey::Sounds, DrsKey::Terrain];
        assert(forall|i: int| 0 <= i < 5 ==> keys@[i] == key_at(i));
        let mut i: usize = 0;
        while i < 5
            invariant
                i <= 5,
                self.wf(),
                self.game_dir == old(self).game_dir,
                forall|j: int| 0 <= j < 5 ==> keys@[j] == key_at(j),
                forall|k: DrsKey| call_requires(read_file, (k,)),
                forall|k: DrsKey| #![trigger self.file_of(k)] {
                    &&& key_index(k) < i ==> (self.file_of(k) matches Some(f) && loaded_by(read_file, k, f))
                    &&& key_index(k) >= i ==> self.file_of(k) == old(self).file_of(k)
                },
            decreases 5 - i,
        {
            let key = keys[i];
            assert(key_index(key) == i);
            let bytes = match read_file(key) {
                Ok(b) => b,
                Err(x) => {
                    assert(fails_with(read_file, key_at(i as int), LoadError::Read(x)));
                    return Err(LoadError::Read(x));
                },
            };
            let file = match DrsFile::read_from_checked(&bytes) {
                None => {
                    assert(fails_with(read_file, key_at(i as int), LoadError::<E>::UnknownFileType));
                    return Err(LoadError::UnknownFileType);
                },
                Some(Err(d)) => {
                    assert(fails_with(read_file, key_at(i as int), LoadError::<E>::Drs(d)));
                    return Err(LoadError::Drs(d));
                },
                Some(Ok(f)) => f,
            };
            assert(archive_of(bytes@, file));
            assert(loaded_by(read_file, key, file));
            assert(tables_indexed(file));
            let ghost before = *self;
            self.resources.set(i, Some(file));
            assert forall|k: DrsKey| #![trigger self.file_of(k)]
                (key_index(k) < i + 1 ==> (self.file_of(k) matches Some(f) && loaded_by(read_file, k, f)))
                && (key_index(k) >= i + 1 ==> self.file_of(k) == old(self).file_of(k)) by {
                if key_index(k) != i {
                    assert(self.resources@[key_index(k)] == before.resources@[key_index(k)]);
                    assert(self.file_of(k) == before.file_of(k));
                } else {
                    assert(k == key);
                }
            }
            i = i + 1;
        }
        Ok(())
    }
}

} // verus!
