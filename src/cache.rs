//! The peer-name cache, reloaded only when the config file's modification
//! time differs from the one it was last loaded at.
use vstd::prelude::*;
use crate::peers::{load_peers, load_spec, PeerNameMap};
use crate::tail::views;

verus! {

/// A file's modification time, as seconds and nanoseconds since the Unix epoch.
#[derive(Clone, Copy, Debug, PartialEq, Eq, Structural)]
pub struct ModTime {
    pub secs: u64,
    pub nanos: u32,
}

/// The oldest possible time, which also stands for a missing file.
pub open spec fn epoch_spec() -> ModTime {
    ModTime { secs: 0, nanos: 0 }
}

impl ModTime {
    pub fn epoch() -> (r: ModTime)
        ensures
            r == epoch_spec(),
    {
        ModTime { secs: 0, nanos: 0 }
    }
}

/// What the cache holds: the time the map was loaded at (`None` before the
/// first load), the map loaded then, and how many times the file was parsed.
pub type CacheModel = (Option<ModTime>, Map<Seq<char>, Seq<char>>, nat);

/// The cache after a read at file time `t`, where `lines` are the file's lines
/// if it has to be read. The cache is reused only when it holds a map loaded
/// at exactly `t`.
pub open spec fn after_read(c: CacheModel, t: ModTime, lines: Seq<Seq<char>>) -> CacheModel {
    if c.0 == Some(t) {
        c
    } else {
        (Some(t), load_spec(lines), if c.2 < u64::MAX { c.2 + 1 } else { c.2 })
    }
}

struct PeerCacheEntry {
    modtime: ModTime,
    map: PeerNameMap,
}

/// The cached mapping with the modification time it was loaded at.
pub struct PeerNameCache {
    entry: Option<PeerCacheEntry>,
    loads: u64,
}

impl View for PeerNameCache {
    type V = CacheModel;

    closed spec fn view(&self) -> CacheModel {
        match self.entry {
            Some(e) => (Some(e.modtime), e.map@, self.loads as nat),
            None => (None, Map::empty(), self.loads as nat),
        }
    }
}

impl PeerNameCache {
    pub closed spec fn wf(&self) -> bool {
        match self.entry {
            Some(e) => e.map.wf(),
            None => true,
        }
    }

    pub fn new() -> (r: PeerNameCache)
        ensures
            r.wf(),
            r@ == (None::<ModTime>, Map::<Seq<char>, Seq<char>>::empty(), 0nat),
    {
        PeerNameCache { entry: None, loads: 0 }
    }

    /// How many times the config file was parsed.
    pub fn load_count(&self) -> (r: u64)
        ensures
            r == self@.2,
    {
        self.loads
    }

    /// The modification time of the cached map; the epoch before any load.
    pub fn get_loaded_peers_modtime(&self) -> (r: ModTime)
        ensures
            r == match self@.0 {
                Some(t) => t,
                None => epoch_spec(),
            },
    {
        match &self.entry {
            Some(e) => e.modtime,
            None => ModTime::epoch(),
        }
    }

    /// A copy of the cached map; empty before any load.
    pub fn get_loaded_peers_map(&self) -> (r: PeerNameMap)
        requires
            self.wf(),
        ensures
            r.wf(),
            r@ == self@.1,
    {
        match &self.entry {
            Some(e) => e.map.duplicate(),
            None => PeerNameMap::new(),
        }
    }

    /// Replaces the cached entry with `map`, loaded at `modtime`.
    pub fn save_loaded_peers(&mut self, modtime: ModTime, map: PeerNameMap)
        requires
            map.wf(),
        ensures
            final(self).wf(),
            final(self)@ == (Some(modtime), map@, old(self)@.2),
    {
        self.entry = Some(PeerCacheEntry { modtime, map });
    }

    /// The mapping for a config file whose modification time is now `modtime`.
    /// When the cache holds a map loaded at that time, the map is returned and
    /// `read_lines` is not called; otherwise (the first access included) the
    /// file's lines are read once, parsed, and replace the cache.
    pub fn current_mapping<F: FnOnce() -> Vec<String>>(
        &mut self,
        modtime: ModTime,
        read_lines: F,
    ) -> (r: PeerNameMap)
        requires
            old(self).wf(),
            read_lines.requires(()),
        ensures
            final(self).wf(),
            r.wf(),
            r@ == final(self)@.1,
            old(self)@.0 == Some(modtime) ==> final(self)@ == old(self)@,
            exists|lines: Vec<String>|
                (old(self)@.0 != Some(modtime) ==> read_lines.ensures((), lines)) && final(self)@
                    == after_read(old(self)@, modtime, views(lines@)),
    {
        let hit = match &self.entry {
            Some(e) => e.modtime == modtime,
            None => false,
        };
        if hit {
            let r = self.get_loaded_peers_map();
            let ghost unread: Vec<String> = arbitrary();
            assert(after_read(self@, modtime, views(unread@)) == self@);
            r
        } else {
            let lines = read_lines();
            let map = load_peers(&lines);
            let r = map.duplicate();
            if self.loads < u64::MAX {
                self.loads = self.loads + 1;
            }
            self.save_loaded_peers(modtime, map);
            r
        }
    }
}

/// Two reads at the same file time give the same mapping, and the second
/// neither parses the file nor changes the cache (its load count included).
pub proof fn lemma_unchanged_file_is_cached(
    c: CacheModel,
    t: ModTime,
    first: Seq<Seq<char>>,
    second: Seq<Seq<char>>,
)
    ensures
        after_read(after_read(c, t, first), t, second) == after_read(c, t, first),
{
}

/// After a read at time `t1`, a read at a different time `t2` parses the file
/// exactly once and gives its new contents; a further read at `t2` parses nothing.
/// The first read of all parses the file, whatever its time.
pub proof fn lemma_changed_file_reloads_once(
    c: CacheModel,
    t1: ModTime,
    t2: ModTime,
    before: Seq<Seq<char>>,
    after: Seq<Seq<char>>,
    again: Seq<Seq<char>>,
)
    requires
        t1 != t2,
        c.2 + 2 <= u64::MAX,
    ensures
        after_read(after_read(c, t1, before), t2, after).1 == load_spec(after),
        after_read(after_read(c, t1, before), t2, after).2 == after_read(c, t1, before).2 + 1,
        after_read(after_read(after_read(c, t1, before), t2, after), t2, again)
            == after_read(after_read(c, t1, before), t2, after),
        c.0 is None ==> after_read(c, t1, before) == (Some(t1), load_spec(before), c.2 + 1),
{
}

} // verus!
