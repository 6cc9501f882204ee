//! Friendly names for peers: the config-line grammar, the name map built from
//! a config file's lines, and its listing.
use vstd::prelude::*;
use crate::tail::views;

verus! {

/// `s` holds no ':'.
pub open spec fn no_colon(s: Seq<char>) -> bool {
    forall|i: int| 0 <= i < s.len() ==> s[i] != ':'
}

/// `i` is the position of the only ':' in `s`.
pub open spec fn sole_colon_at(s: Seq<char>, i: int) -> bool {
    &&& 0 <= i < s.len()
    &&& s[i] == ':'
    &&& no_colon(s.take(i))
    &&& no_colon(s.skip(i + 1))
}

/// A config line `key:name` with exactly one ':' gives the record
/// `(key, name)`; any other line gives none.
pub open spec fn parse_record(s: Seq<char>) -> Option<(Seq<char>, Seq<char>)> {
    if exists|i: int| sole_colon_at(s, i) {
        let i = choose|i: int| sole_colon_at(s, i);
        Some((s.take(i), s.skip(i + 1)))
    } else {
        None
    }
}

/// The map that a sequence of `(key, name)` records describes; a later
/// record for the same key replaces an earlier one.
pub open spec fn map_of(rs: Seq<(Seq<char>, Seq<char>)>) -> Map<Seq<char>, Seq<char>>
    decreases rs.len(),
{
    if rs.len() == 0 {
        Map::empty()
    } else {
        map_of(rs.drop_last()).insert(rs.last().0, rs.last().1)
    }
}

/// The map that the lines of a config file give.
pub open spec fn load_spec(lines: Seq<Seq<char>>) -> Map<Seq<char>, Seq<char>>
    decreases lines.len(),
{
    if lines.len() == 0 {
        Map::empty()
    } else {
        let prev = load_spec(lines.drop_last());
        match parse_record(lines.last()) {
            Some(kv) => prev.insert(kv.0, kv.1),
            None => prev,
        }
    }
}

/// How many lines of `lines` are well-formed records.
pub open spec fn well_formed_count(lines: Seq<Seq<char>>) -> nat
    decreases lines.len(),
{
    if lines.len() == 0 {
        0
    } else {
        well_formed_count(lines.drop_last()) + if parse_record(lines.last()) is Some {
            1nat
        } else {
            0nat
        }
    }
}

/// One peer: its public key and the name shown for it.
pub struct PeerRecord {
    pub public_key: String,
    pub friendly_name: String,
}

/// A snapshot of the key-to-name mapping; keys are unique.
pub struct PeerNameMap {
    records: Vec<PeerRecord>,
}

pub open spec fn record_views(v: Seq<PeerRecord>) -> Seq<(Seq<char>, Seq<char>)> {
    v.map_values(|r: PeerRecord| (r.public_key@, r.friendly_name@))
}

pub open spec fn keys_unique(rs: Seq<(Seq<char>, Seq<char>)>) -> bool {
    forall|i: int, j: int| 0 <= i < rs.len() && 0 <= j < rs.len() && i != j ==> rs[i].0 != rs[j].0
}

proof fn lemma_map_of_keys(rs: Seq<(Seq<char>, Seq<char>)>)
    requires
        keys_unique(rs),
    ensures
        forall|k: Seq<char>| #[trigger]
            map_of(rs).contains_key(k) <==> exists|i: int| 0 <= i < rs.len() && rs[i].0 == k,
        forall|i: int| 0 <= i < rs.len() ==> #[trigger] map_of(rs)[rs[i].0] == rs[i].1,
        map_of(rs).dom().finite(),
        map_of(rs).dom().len() == rs.len(),
    decreases rs.len(),
{
    if rs.len() > 0 {
        let p = rs.drop_last();
        assert(keys_unique(p));
        lemma_map_of_keys(p);
        assert forall|k: Seq<char>| #[trigger]
            map_of(rs).contains_key(k) <==> exists|i: int| 0 <= i < rs.len() && rs[i].0 == k by {
            if map_of(p).contains_key(k) {
                let i = choose|i: int| 0 <= i < p.len() && p[i].0 == k;
                assert(rs[i].0 == k);
            }
            if exists|i: int| 0 <= i < rs.len() && rs[i].0 == k {
                let i = choose|i: int| 0 <= i < rs.len() && rs[i].0 == k;
                if i < p.len() {
                    assert(p[i].0 == k);
                }
            }
        }
        assert forall|i: int| 0 <= i < rs.len() implies #[trigger] map_of(rs)[rs[i].0]
            == rs[i].1 by {
            if i < p.len() {
                assert(p[i].0 == rs[i].0);
                assert(rs[i].0 != rs.last().0);
            }
        }
        assert(!map_of(p).contains_key(rs.last().0)) by {
            if map_of(p).contains_key(rs.last().0) {
                let i = choose|i: int| 0 <= i < p.len() && p[i].0 == rs.last().0;
                assert(rs[i].0 == rs[rs.len() - 1].0);
            }
        }
    }
}

proof fn lemma_map_of_update(rs: Seq<(Seq<char>, Seq<char>)>, i: int, v: Seq<char>)
    requires
        keys_unique(rs),
        0 <= i < rs.len(),
    ensures
        map_of(rs.update(i, (rs[i].0, v))) == map_of(rs).insert(rs[i].0, v),
    decreases rs.len(),
{
    let k = rs[i].0;
    let u = rs.update(i, (k, v));
    if i == rs.len() - 1 {
        assert(u.drop_last() =~= rs.drop_last());
        assert(map_of(rs).insert(k, v) =~= map_of(rs.drop_last()).insert(k, v));
    } else {
        let p = rs.drop_last();
        assert(keys_unique(p));
        lemma_map_of_update(p, i, v);
        assert(u.drop_last() =~= p.update(i, (k, v)));
        assert(rs.last().0 != k);
        assert(map_of(u) =~= map_of(rs).insert(k, v));
    }
}

impl View for PeerNameMap {
    type V = Map<Seq<char>, Seq<char>>;

    closed spec fn view(&self) -> Map<Seq<char>, Seq<char>> {
        map_of(record_views(self.records@))
    }
}

impl PeerNameMap {
    /// Keys are unique among the held records.
    pub closed spec fn wf(&self) -> bool {
        keys_unique(record_views(self.records@))
    }

    pub fn new() -> (r: PeerNameMap)
        ensures
            r.wf(),
            r@ == Map::<Seq<char>, Seq<char>>::empty(),
    {
        PeerNameMap { records: Vec::new() }
    }

    pub fn len(&self) -> (r: usize)
        requires
            self.wf(),
        ensures
            self@.dom().finite(),
            r == self@.dom().len(),
    {
        proof {
            lemma_map_of_keys(record_views(self.records@));
        }
        self.records.len()
    }

    fn position(&self, key: &str) -> (r: Option<usize>)
        ensures
            match r {
                Some(i) => i < self.records@.len() && self.records@[i as int].public_key@ == key@,
                None => forall|i: int|
                    0 <= i < self.records@.len() ==> self.records@[i].public_key@ != key@,
            },
    {
        let mut i: usize = 0;
        while i < self.records.len()
            invariant
                i <= self.records@.len(),
                forall|j: int| 0 <= j < i ==> self.records@[j].public_key@ != key@,
            decreases self.records@.len() - i,
        {
            if str_eq(self.records[i].public_key.as_str(), key) {
                return Some(i);
            }
            i = i + 1;
        }
        None
    }

    /// The name held for `key`, if any.
    pub fn get(&self, key: &str) -> (r: Option<&String>)
        requires
            self.wf(),
        ensures
            match r {
                Some(n) => self@.contains_key(key@) && self@[key@] == n@,
                None => !self@.contains_key(key@),
            },
    {
        let ghost rv = record_views(self.records@);
        proof {
            lemma_map_of_keys(rv);
        }
        match self.position(key) {
            Some(i) => {
                assert(rv[i as int].0 == key@);
                Some(&self.records[i].friendly_name)
            },
            None => {
                assert forall|j: int| 0 <= j < rv.len() implies rv[j].0 != key@ by {
                    assert(rv[j].0 == self.records@[j].public_key@);
                }
                None
            },
        }
    }

    /// Maps `key` to `name`, replacing any name held for `key`.
    pub fn insert(&mut self, key: String, name: String)
        requires
            old(self).wf(),
        ensures
            final(self).wf(),
            final(self)@ == old(self)@.insert(key@, name@),
    {
        let ghost pre = record_views(self.records@);
        match self.position(key.as_str()) {
            Some(i) => {
                proof {
                    lemma_map_of_update(pre, i as int, name@);
                }
                self.records.set(i, PeerRecord { public_key: key, friendly_name: name });
                assert(record_views(self.records@) =~= pre.update(i as int, (pre[i as int].0, name@)));
                assert(keys_unique(record_views(self.records@))) by {
                    assert forall|a: int| 0 <= a < pre.len() implies #[trigger] record_views(
                        self.records@,
                    )[a].0 == pre[a].0 by {}
                }
            },
            None => {
                let ghost kv = key@;
                self.records.push(PeerRecord { public_key: key, friendly_name: name });
                let ghost post = record_views(self.records@);
                assert(post.drop_last() =~= pre);
                assert(keys_unique(post)) by {
                    assert forall|a: int| 0 <= a < pre.len() implies #[trigger] post[a].0 != kv by {
                        assert(post[a].0 == old(self).records@[a].public_key@);
                    }
                    assert forall|a: int| 0 <= a < pre.len() implies #[trigger] post[a] == pre[a] by {}
                }
            },
        }
    }

    /// A copy of this map.
    pub fn duplicate(&self) -> (r: PeerNameMap)
        requires
            self.wf(),
        ensures
            r.wf(),
            r@ == self@,
    {
        let mut out: Vec<PeerRecord> = Vec::new();
        let mut i: usize = 0;
        while i < self.records.len()
            invariant
                i <= self.records@.len(),
                out@.len() == i,
                forall|j: int|
                    0 <= j < i ==> #[trigger] out@[j].public_key@ == self.records@[j].public_key@
                        && out@[j].friendly_name@ == self.records@[j].friendly_name@,
            decreases self.records@.len() - i,
        {
            let rec = &self.records[i];
            let k = rec.public_key.clone();
            let n = rec.friendly_name.clone();
            assert(k@ == self.records@[i as int].public_key@);
            assert(n@ == self.records@[i as int].friendly_name@);
            out.push(PeerRecord { public_key: k, friendly_name: n });
            assert(out@[i as int].public_key@ == self.records@[i as int].public_key@);
            i = i + 1;
        }
        assert forall|j: int| 0 <= j < out@.len() implies #[trigger] record_views(out@)[j]
            == record_views(self.records@)[j] by {}
        assert(record_views(out@) =~= record_views(self.records@));
        PeerNameMap { records: out }
    }

    /// The `(key, name)` pairs, in the order in which their keys were first inserted.
    pub closed spec fn entries(&self) -> Seq<(Seq<char>, Seq<char>)> {
        record_views(self.records@)
    }

    /// The records, in the order in which their keys were first inserted.
    pub fn records(&self) -> (r: &Vec<PeerRecord>)
        requires
            self.wf(),
        ensures
            record_views(r@) == self.entries(),
            map_of(self.entries()) == self@,
            keys_unique(self.entries()),
    {
        &self.records
    }
}

/// Whether two strings hold the same characters.
pub fn str_eq(a: &str, b: &str) -> (r: bool)
    ensures
        r == (a@ == b@),
{
    let n = a.unicode_len();
    if n != b.unicode_len() {
        return false;
    }
    let mut i: usize = 0;
    while i < n
        invariant
            n == a@.len(),
            n == b@.len(),
            i <= n,
            a@.take(i as int) == b@.take(i as int),
        decreases n - i,
    {
        if a.get_char(i) != b.get_char(i) {
            return false;
        }
        assert(a@.take(i as int + 1) =~= a@.take(i as int).push(a@[i as int]));
        assert(b@.take(i as int + 1) =~= b@.take(i as int).push(b@[i as int]));
        i = i + 1;
    }
    assert(a@ =~= a@.take(n as int));
    assert(b@ =~= b@.take(n as int));
    true
}


/// The first ':' in `s` at or after `from`, or the length of `s` when there is none.
fn find_colon(s: &str, from: usize) -> (r: usize)
    requires
        from <= s@.len(),
    ensures
        from <= r <= s@.len(),
        forall|j: int| from <= j < r ==> s@[j] != ':',
        r < s@.len() ==> s@[r as int] == ':',
{
    let n = s.unicode_len();
    let mut i: usize = from;
    while i < n
        invariant
            n == s@.len(),
            from <= i <= n,
            forall|j: int| from <= j < i ==> s@[j] != ':',
        decreases n - i,
    {
        if s.get_char(i) == ':' {
            return i;
        }
        i = i + 1;
    }
    i
}

/// Reads one config line `key:name`; a line without exactly one ':' gives `None`.
pub fn parse_peer_line(line: &str) -> (r: Option<PeerRecord>)
    ensures
        match r {
            Some(rec) => parse_record(line@) == Some((rec.public_key@, rec.friendly_name@)),
            None => parse_record(line@) is None,
        },
{
    let ghost s = line@;
    let n = line.unicode_len();
    let k = find_colon(line, 0);
    if k == n {
        assert forall|i: int| !sole_colon_at(s, i) by {
            if 0 <= i < s.len() {
                assert(s[i] != ':');
            }
        }
        return None;
    }
    let m = find_colon(line, k + 1);
    if m < n {
        assert forall|i: int| !sole_colon_at(s, i) by {
            if sole_colon_at(s, i) {
                if i < k {
                    assert(s[i] != ':');
                } else if i == k {
                    assert(s.skip(i + 1)[m - k - 1] == ':');
                } else {
                    assert(s.take(i)[k as int] == ':');
                }
            }
        }
        return None;
    }
    assert(sole_colon_at(s, k as int)) by {
        assert forall|j: int| 0 <= j < k implies #[trigger] s.take(k as int)[j] != ':' by {}
        assert forall|j: int| 0 <= j < s.len() - k - 1 implies #[trigger] s.skip(k + 1)[j]
            != ':' by {
            assert(s[k + 1 + j] != ':');
        }
    }
    let ghost c = choose|i: int| sole_colon_at(s, i);
    assert(c == k) by {
        if c < k {
            assert(s.take(k as int)[c] == ':');
        } else if c > k {
            assert(s.take(c)[k as int] == ':');
        }
    }
    let key = line.substring_char(0, k).to_owned();
    let name = line.substring_char(k + 1, n).to_owned();
    Some(PeerRecord { public_key: key, friendly_name: name })
}

/// The name map of a config file given as its lines; malformed lines are skipped.
pub fn load_peers(lines: &Vec<String>) -> (r: PeerNameMap)
    ensures
        r.wf(),
        r@ == load_spec(views(lines@)),
{
    let mut map = PeerNameMap::new();
    let mut i: usize = 0;
    while i < lines.len()
        invariant
            i <= lines@.len(),
            map.wf(),
            map@ == load_spec(views(lines@.take(i as int))),
        decreases lines@.len() - i,
    {
        let ghost prev = views(lines@.take(i as int));
        let ghost cur = views(lines@.take(i as int + 1));
        assert(cur.drop_last() =~= prev);
        assert(cur.last() == lines@[i as int]@);
        match parse_peer_line(lines[i].as_str()) {
            Some(rec) => {
                map.insert(rec.public_key, rec.friendly_name);
            },
            None => {},
        }
        i = i + 1;
    }
    assert(lines@.take(i as int) =~= lines@);
    map
}

/// The key of a well-formed config line.
pub open spec fn key_of(s: Seq<char>) -> Seq<char> {
    match parse_record(s) {
        Some(kv) => kv.0,
        None => Seq::empty(),
    }
}

/// The well-formed lines of `lines` name distinct keys.
pub open spec fn distinct_record_keys(lines: Seq<Seq<char>>) -> bool {
    forall|i: int, j: int|
        0 <= i < lines.len() && 0 <= j < lines.len() && i != j && parse_record(lines[i]) is Some
            && parse_record(lines[j]) is Some ==> key_of(lines[i]) != key_of(lines[j])
}

/// A config file whose well-formed lines name distinct keys gives a map with
/// exactly one entry per well-formed line, however many malformed lines it holds.
pub proof fn lemma_load_entry_count(lines: Seq<Seq<char>>)
    requires
        distinct_record_keys(lines),
    ensures
        load_spec(lines).dom().finite(),
        load_spec(lines).dom().len() == well_formed_count(lines),
        forall|k: Seq<char>| #[trigger]
            load_spec(lines).contains_key(k) ==> exists|i: int|
                0 <= i < lines.len() && parse_record(lines[i]) is Some && key_of(lines[i]) == k,
    decreases lines.len(),
{
    if lines.len() > 0 {
        let p = lines.drop_last();
        assert(distinct_record_keys(p)) by {
            assert forall|i: int, j: int|
                0 <= i < p.len() && 0 <= j < p.len() && i != j && parse_record(p[i]) is Some
                    && parse_record(p[j]) is Some implies key_of(p[i]) != key_of(p[j]) by {
                assert(p[i] == lines[i] && p[j] == lines[j]);
            }
        }
        lemma_load_entry_count(p);
        let last = lines.last();
        match parse_record(last) {
            Some(kv) => {
                assert(!load_spec(p).contains_key(kv.0)) by {
                    if load_spec(p).contains_key(kv.0) {
                        let i = choose|i: int|
                            0 <= i < p.len() && parse_record(p[i]) is Some && key_of(p[i]) == kv.0;
                        assert(lines[i] == p[i]);
                        assert(lines[lines.len() - 1] == last);
                    }
                }
                assert forall|k: Seq<char>| #[trigger]
                    load_spec(lines).contains_key(k) implies exists|i: int|
                    0 <= i < lines.len() && parse_record(lines[i]) is Some && key_of(lines[i]) == k by {
                    if k == kv.0 {
                        assert(lines[lines.len() - 1] == last);
                    } else {
                        let i = choose|i: int|
                            0 <= i < p.len() && parse_record(p[i]) is Some && key_of(p[i]) == k;
                        assert(lines[i] == p[i]);
                    }
                }
            },
            None => {
                assert forall|k: Seq<char>| #[trigger]
                    load_spec(lines).contains_key(k) implies exists|i: int|
                    0 <= i < lines.len() && parse_record(lines[i]) is Some && key_of(lines[i]) == k by {
                    let i = choose|i: int|
                        0 <= i < p.len() && parse_record(p[i]) is Some && key_of(p[i]) == k;
                    assert(lines[i] == p[i]);
                }
            },
        }
    }
}


/// One "key is name" line per entry, in order.
pub open spec fn dump_spec(rs: Seq<(Seq<char>, Seq<char>)>) -> Seq<char>
    decreases rs.len(),
{
    if rs.len() == 0 {
        Seq::empty()
    } else {
        dump_spec(rs.drop_last()) + rs.last().0 + " is "@ + rs.last().1 + "\n"@
    }
}

/// A listing of `map`, one "key is name" line per entry.
pub fn dump_peers(map: &PeerNameMap) -> (r: String)
    requires
        map.wf(),
    ensures
        r@ == dump_spec(map.entries()),
{
    let recs = map.records();
    let ghost rv = map.entries();
    let mut out = String::new();
    let mut i: usize = 0;
    while i < recs.len()
        invariant
            i <= recs@.len(),
            rv == record_views(recs@),
            out@ == dump_spec(rv.take(i as int)),
        decreases recs@.len() - i,
    {
        out.append(recs[i].public_key.as_str());
        out.append(" is ");
        out.append(recs[i].friendly_name.as_str());
        out.append("\n");
        assert(rv.take(i as int + 1).drop_last() =~= rv.take(i as int));
        i = i + 1;
    }
    assert(rv.take(i as int) =~= rv);
    out
}

} // verus!
