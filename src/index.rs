use vstd::prelude::*;
use vstd::string::StringExecFns;

use crate::archive::{get_tile_details, MetaView, TileMeta};
use crate::entries::{keys_of, upsert};

verus! {

/// The stem of an archive's file name: the name less its `.mbtiles`
/// extension, which must be written exactly so and follow a non-empty stem.
pub open spec fn archive_stem(name: Seq<char>) -> Option<Seq<char>> {
    if name.len() > 8 && name.subrange(name.len() - 8, name.len() as int) == ".mbtiles"@ {
        Some(name.subrange(0, name.len() - 8))
    } else {
        None
    }
}

/// The id of the archive file `file_name` found under the directory prefix
/// `prefix`: the prefix followed by the file's stem. Files of any other
/// extension have none.
pub fn tileset_id(prefix: &str, file_name: &str) -> (r: Option<String>)
    ensures
        match archive_stem(file_name@) {
            Some(stem) => r matches Some(id) && id@ == prefix@ + stem,
            None => r is None,
        },
{
    let n = file_name.unicode_len();
    if n <= 8 {
        return None;
    }
    let ext = file_name.substring_char(n - 8, n);
    if !crate::text::str_eq(ext, ".mbtiles") {
        return None;
    }
    let stem = file_name.substring_char(0, n - 8);
    let mut id = prefix.to_owned();
    id.append(stem);
    Some(id)
}

/// The prefix for the entries of the subdirectory `dir_name` of a directory
/// whose prefix is `prefix`: directory names joined by `/`, ending in `/`.
pub fn child_prefix(prefix: &str, dir_name: &str) -> (r: String)
    ensures
        r@ == prefix@ + dir_name@ + "/"@,
{
    let mut p = prefix.to_owned();
    p.append(dir_name);
    p.append("/");
    p
}

/// The archives found under a directory tree, each under its id.
pub struct TilesetIndex {
    entries: Vec<(String, TileMeta)>,
}

impl TilesetIndex {
    /// The ids held, in order of insertion; no id appears twice.
    pub closed spec fn ids(&self) -> Seq<Seq<char>> {
        keys_of(self.entries@)
    }

    /// Whether the description `m` is held under `id`.
    pub closed spec fn holds(&self, id: Seq<char>, m: MetaView) -> bool {
        exists|j: int|
            0 <= j < self.entries@.len() && self.entries@[j].0@ == id && self.entries@[j].1@ == m
    }

    /// No id appears twice, and each description's id is the id it is
    /// held under.
    pub closed spec fn wf(&self) -> bool {
        &&& self.ids().no_duplicates()
        &&& forall|j: int|
            0 <= j < self.entries@.len() ==> (#[trigger] self.entries@[j]).1@.id
                == self.entries@[j].0@
    }

    /// An index that holds nothing.
    pub fn new() -> (r: TilesetIndex)
        ensures
            r.wf(),
            r.ids().len() == 0,
    {
        let r = TilesetIndex { entries: Vec::new() };
        assert(r.ids() =~= Seq::<Seq<char>>::empty());
        r
    }

    /// The number of archives held.
    pub fn len(&self) -> (r: usize)
        requires
            self.wf(),
        ensures
            r == self.ids().len(),
    {
        self.entries.len()
    }

    /// The ids held.
    pub fn ids_vec(&self) -> (r: Vec<String>)
        ensures
            r.deep_view() == self.ids(),
    {
        let mut r: Vec<String> = Vec::new();
        let mut i: usize = 0;
        while i < self.entries.len()
            invariant
                i <= self.entries@.len(),
                r.deep_view() == self.ids().take(i as int),
            decreases self.entries@.len() - i,
        {
            let ghost before = r.deep_view();
            let id = self.entries[i].0.clone();
            assert(id@ == self.ids()[i as int]);
            r.push(id);
            assert(r.deep_view() =~= before.push(id@));
            assert(r.deep_view() =~= self.ids().take(i + 1));
            i = i + 1;
        }
        assert(self.ids().take(i as int) =~= self.ids());
        r
    }

    /// The description held under `id`.
    pub fn get(&self, id: &str) -> (r: Option<&TileMeta>)
        requires
            self.wf(),
        ensures
            r is Some <==> self.ids().contains(id@),
            r matches Some(m) ==> self.holds(id@, m@) && m@.id == id@,
    {
        match crate::entries::find_key(&self.entries, id) {
            Some(j) => {
                assert(self.ids()[j as int] == id@);
                Some(&self.entries[j].1)
            },
            None => None,
        }
    }

    /// Holds `meta` under `id`, in place of whatever was held under it.
    pub fn insert(&mut self, id: String, meta: TileMeta)
        requires
            old(self).wf(),
            meta@.id == id@,
        ensures
            final(self).wf(),
            forall|k: Seq<char>|
                final(self).ids().contains(k) <==> old(self).ids().contains(k) || k == id@,
            final(self).holds(id@, meta@),
            forall|k: Seq<char>, m: MetaView|
                k != id@ && old(self).holds(k, m) ==> final(self).holds(k, m),
    {
        let ghost (i, m) = (id@, meta@);
        upsert(&mut self.entries, id, meta);
        let ghost last = self.entries@.len() - 1;
        assert(self.entries@[last].0@ == i);
        assert(self.entries@[last].1@ == m);
        assert forall|j: int| 0 <= j < self.entries@.len() implies (
        #[trigger] self.entries@[j]).1@.id == self.entries@[j].0@ by {
            if j < last {
                assert(old(self).entries@.contains(self.entries@[j]));
                let o = choose|o: int|
                    0 <= o < old(self).entries@.len() && old(self).entries@[o]
                        == self.entries@[j];
                assert(old(self).entries@[o].1@.id == old(self).entries@[o].0@);
            }
        }
        assert forall|k: Seq<char>, mv: MetaView|
            k != i && old(self).holds(k, mv) implies self.holds(k, mv) by {
            let o = choose|o: int|
                0 <= o < old(self).entries@.len() && old(self).entries@[o].0@ == k
                    && old(self).entries@[o].1@ == mv;
            assert(self.entries@.contains(old(self).entries@[o]));
            let w = choose|w: int|
                0 <= w < self.entries@.len() && self.entries@[w] == old(self).entries@[o];
            assert(self.entries@[w].0@ == k && self.entries@[w].1@ == mv);
        }
    }

    /// Opens the archive file `file_name` at `path`, found under the
    /// directory prefix `prefix`, and holds its description under its id.
    /// Files that are not archives by name, or that fail to open, are
    /// skipped; the result says whether the file was added.
    pub fn add_archive(&mut self, prefix: &str, file_name: &str, path: &str) -> (r: bool)
        requires
            old(self).wf(),
        ensures
            final(self).wf(),
            !r ==> final(self).ids() == old(self).ids(),
            r ==> archive_stem(file_name@) is Some && forall|k: Seq<char>|
                final(self).ids().contains(k) <==> old(self).ids().contains(k) || k == prefix@
                    + archive_stem(file_name@)->0,
            r ==> exists|m: MetaView|
                final(self).holds(prefix@ + archive_stem(file_name@)->0, m) && m.path == path@
                    && m.id == prefix@ + archive_stem(file_name@)->0,
            forall|k: Seq<char>, m: MetaView|
                k != prefix@ + archive_stem(file_name@)->0 && old(self).holds(k, m)
                    ==> final(self).holds(k, m),
    {
        let id = match tileset_id(prefix, file_name) {
            Some(id) => id,
            None => return false,
        };
        match get_tile_details(path, id.as_str()) {
            Ok(meta) => {
                let ghost m = meta@;
                self.insert(id, meta);
                assert(self.holds(prefix@ + archive_stem(file_name@)->0, m));
                true
            },
            Err(_) => false,
        }
    }
}

} // verus!
