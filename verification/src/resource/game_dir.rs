//! The game data directory, and how a file is found in it whatever the case
//! of its name on a case-sensitive file system.

use vstd::prelude::*;

verus! {

/// The game data directory (the `game` directory of the Age of Empires CD).
#[derive(Clone, Debug)]
pub struct GameDir {
    /// The directory's path.
    pub dir: String,
}

/// An ASCII letter in lower case; every other byte unchanged.
pub open spec fn ascii_lower(b: u8) -> u8 {
    if 65 <= b <= 90 { (b + 32) as u8 } else { b }
}

/// Whether two names are the same but for the case of ASCII letters
/// (`str::eq_ignore_ascii_case`, byte by byte).
pub open spec fn same_ignoring_ascii_case(a: Seq<u8>, b: Seq<u8>) -> bool {
    a.len() == b.len() && forall|i: int| 0 <= i < a.len() ==> ascii_lower(#[trigger] a[i]) == ascii_lower(b[i])
}

/// Whether two names are the same but for the case of ASCII letters.
pub fn eq_ignore_ascii_case(a: &[u8], b: &[u8]) -> (r: bool)
    ensures
        r == same_ignoring_ascii_case(a@, b@),
{
    if a.len() != b.len() {
        return false;
    }
    let mut i: usize = 0;
    while i < a.len()
        invariant
            i <= a@.len(),
            a@.len() == b@.len(),
            forall|j: int| 0 <= j < i ==> ascii_lower(#[trigger] a@[j]) == ascii_lower(b@[j]),
        decreases a@.len() - i,
    {
        let x = a[i];
        let y = b[i];
        let lx = if 65 <= x && x <= 90 { x + 32 } else { x };
        let ly = if 65 <= y && y <= 90 { y + 32 } else { y };
        if lx != ly {
            assert(ascii_lower(a@[i as int]) != ascii_lower(b@[i as int]));
            return false;
        }
        i = i + 1;
    }
    true
}

/// The names of the parts of a relative path, in order: the pieces between
/// the separators `/`, without empty pieces and without `.` and `..`
/// (the parts that `Path::components` reports as normal).
pub open spec fn normal_components(path: Seq<u8>) -> Seq<Seq<u8>> {
    pieces(path, path.len() as int).filter(|c: Seq<u8>| is_normal_component(c))
}

/// Whether a piece between separators names a file or directory.
pub open spec fn is_normal_component(c: Seq<u8>) -> bool {
    c.len() > 0 && c != seq![46u8] && c != seq![46u8, 46u8]
}

/// The pieces of the first `n` bytes of `path` between separators, the last
/// one possibly empty.
pub open spec fn pieces(path: Seq<u8>, n: int) -> Seq<Seq<u8>>
    decreases n,
{
    if n <= 0 {
        seq![Seq::empty()]
    } else {
        let before = pieces(path, n - 1);
        if path[n - 1] == 47 {
            before.push(Seq::empty())
        } else {
            before.update(before.len() - 1, before.last().push(path[n - 1]))
        }
    }
}

/// The pieces always hold at least the piece in progress.
proof fn lemma_pieces_nonempty(path: Seq<u8>, n: int)
    ensures
        pieces(path, n).len() >= 1,
    decreases n,
{
    if n > 0 {
        lemma_pieces_nonempty(path, n - 1);
    }
}

/// The names of the normal parts of a relative path, in order.
pub fn path_components(path: &[u8]) -> (r: Vec<Vec<u8>>)
    ensures
        r@.len() == normal_components(path@).len(),
        forall|i: int| 0 <= i < r@.len() ==> (#[trigger] r@[i])@ == normal_components(path@)[i],
{
    let ghost is_normal = |c: Seq<u8>| is_normal_component(c);
    let mut done: Vec<Vec<u8>> = Vec::new();
    let mut cur: Vec<u8> = Vec::new();
    let mut i: usize = 0;
    proof {
        assert(pieces(path@, 0).drop_last().filter(is_normal) =~= Seq::<Seq<u8>>::empty());
    }
    while i < path.len()
        invariant
            i <= path@.len(),
            is_normal == (|c: Seq<u8>| is_normal_component(c)),
            pieces(path@, i as int).len() >= 1,
            cur@ == pieces(path@, i as int).last(),
            done@.len() == pieces(path@, i as int).drop_last().filter(is_normal).len(),
            forall|j: int| 0 <= j < done@.len()
                ==> (#[trigger] done@[j])@ == pieces(path@, i as int).drop_last().filter(is_normal)[j],
        decreases path@.len() - i,
    {
        let ghost before = pieces(path@, i as int);
        proof {
            lemma_pieces_nonempty(path@, i as int);
        }
        let b = path[i];
        if b == 47 {
            let normal = cur.len() > 0 && !(cur.len() == 1 && cur[0] == 46)
                && !(cur.len() == 2 && cur[0] == 46 && cur[1] == 46);
            assert(normal == is_normal_component(cur@)) by {
                if cur@.len() == 1 && cur@ == seq![46u8] {
                    assert(cur@[0] == 46);
                }
                if cur@.len() == 2 && cur@ == seq![46u8, 46u8] {
                    assert(cur@[0] == 46 && cur@[1] == 46);
                }
                if cur@.len() == 1 && cur@[0] == 46 {
                    assert(cur@ =~= seq![46u8]);
                }
                if cur@.len() == 2 && cur@[0] == 46 && cur@[1] == 46 {
                    assert(cur@ =~= seq![46u8, 46u8]);
                }
            }
            proof {
                let after = pieces(path@, i + 1);
                assert(after == before.push(Seq::empty()));
                assert(after.drop_last() =~= before);
                assert(before =~= before.drop_last().push(before.last()));
                before.drop_last().lemma_filter_push(before.last(), is_normal);
            }
            if normal {
                let piece = cur;
                cur = Vec::new();
                done.push(piece);
            } else {
                cur = Vec::new();
            }
        } else {
            proof {
                let after = pieces(path@, i + 1);
                assert(after.drop_last() =~= before.drop_last());
            }
            cur.push(b);
        }
        i = i + 1;
    }
    let ghost all = pieces(path@, path@.len() as int);
    proof {
        lemma_pieces_nonempty(path@, path@.len() as int);
        assert(all =~= all.drop_last().push(all.last()));
        all.drop_last().lemma_filter_push(all.last(), is_normal);
    }
    let normal = cur.len() > 0 && !(cur.len() == 1 && cur[0] == 46)
        && !(cur.len() == 2 && cur[0] == 46 && cur[1] == 46);
    assert(normal == is_normal_component(cur@)) by {
        if cur@.len() == 1 && cur@ == seq![46u8] {
            assert(cur@[0] == 46);
        }
        if cur@.len() == 2 && cur@ == seq![46u8, 46u8] {
            assert(cur@[0] == 46 && cur@[1] == 46);
        }
        if cur@.len() == 1 && cur@[0] == 46 {
            assert(cur@ =~= seq![46u8]);
        }
        if cur@.len() == 2 && cur@[0] == 46 && cur@[1] == 46 {
            assert(cur@ =~= seq![46u8, 46u8]);
        }
    }
    if normal {
        done.push(cur);
    }
    done
}

/// Finds, among the names of a directory's entries, the first one that is
/// `name` but for the case of ASCII letters.
pub fn find_entry(name: &[u8], entries: &Vec<Vec<u8>>) -> (r: Option<usize>)
    ensures
        match r {
            Some(i) => i < entries@.len() && same_ignoring_ascii_case(name@, entries@[i as int]@)
                && forall|j: int| 0 <= j < i ==> !same_ignoring_ascii_case(name@, (#[trigger] entries@[j])@),
            None => forall|j: int| 0 <= j < entries@.len() ==> !same_ignoring_ascii_case(name@, (#[trigger] entries@[j])@),
        },
{
    let mut i: usize = 0;
    while i < entries.len()
        invariant
            i <= entries@.len(),
            forall|j: int| 0 <= j < i ==> !same_ignoring_ascii_case(name@, (#[trigger] entries@[j])@),
        decreases entries@.len() - i,
    {
        if eq_ignore_ascii_case(name, entries[i].as_slice()) {
            return Some(i);
        }
        i = i + 1;
    }
    None
}

} // verus!
