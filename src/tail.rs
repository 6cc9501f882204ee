//! The tail buffer: the most recent captured lines, oldest evicted first.
use vstd::prelude::*;

verus! {

/// Number of lines that the tail buffer keeps.
pub const TAIL_CAPACITY: usize = 100;

/// The last `n` elements of `s` (all of `s` when it is shorter).
pub open spec fn keep_last(s: Seq<Seq<char>>, n: nat) -> Seq<Seq<char>> {
    if s.len() > n {
        s.skip(s.len() - n)
    } else {
        s
    }
}

/// The lines of `lines` joined by newlines: one between each two lines, none
/// after the last.
pub open spec fn joined(lines: Seq<Seq<char>>) -> Seq<char>
    decreases lines.len(),
{
    if lines.len() == 0 {
        Seq::empty()
    } else if lines.len() == 1 {
        lines[0]
    } else {
        joined(lines.drop_last()) + seq!['\n'] + lines.last()
    }
}

/// The contents of a buffer after each of `added` was pushed, in order.
pub open spec fn push_each(buf: Seq<Seq<char>>, added: Seq<Seq<char>>) -> Seq<Seq<char>>
    decreases added.len(),
{
    if added.len() == 0 {
        buf
    } else {
        keep_last(push_each(buf, added.drop_last()).push(added.last()), TAIL_CAPACITY as nat)
    }
}

/// Views of a vector of strings.
pub open spec fn views(v: Seq<String>) -> Seq<Seq<char>> {
    v.map_values(|s: String| s@)
}

/// The lines of `v` joined by newlines.
pub fn vec_to_text(v: &Vec<String>) -> (r: String)
    ensures
        r@ == joined(views(v@)),
{
    let mut txt = String::new();
    let mut i: usize = 0;
    while i < v.len()
        invariant
            i <= v@.len(),
            txt@ == joined(views(v@.take(i as int))),
        decreases v@.len() - i,
    {
        if i > 0 {
            txt.append("\n");
        }
        txt.append(v[i].as_str());
        proof {
            reveal_strlit("\n");
            if i == 0 {
                assert(txt@ =~= views(v@.take(1))[0]);
            }
            let pre = views(v@.take(i as int + 1));
            assert(pre.drop_last() =~= views(v@.take(i as int)));
        }
        i = i + 1;
    }
    proof {
        assert(v@.take(i as int) =~= v@);
    }
    txt
}

/// A first-in first-out store of at most `TAIL_CAPACITY` lines, in arrival order.
pub struct LineBuffer {
    lines: Vec<String>,
}

impl View for LineBuffer {
    type V = Seq<Seq<char>>;

    closed spec fn view(&self) -> Seq<Seq<char>> {
        views(self.lines@)
    }
}

impl LineBuffer {
    /// Never more than `TAIL_CAPACITY` lines are held.
    pub open spec fn wf(&self) -> bool {
        self@.len() <= TAIL_CAPACITY
    }

    pub fn new() -> (r: LineBuffer)
        ensures
            r@ == Seq::<Seq<char>>::empty(),
            r.wf(),
    {
        let r = LineBuffer { lines: Vec::new() };
        assert(r@ =~= Seq::<Seq<char>>::empty());
        r
    }

    pub fn len(&self) -> (r: usize)
        ensures
            r == self@.len(),
    {
        self.lines.len()
    }

    /// Appends `line`; past capacity the oldest line is dropped.
    pub fn push(&mut self, line: String)
        requires
            old(self).wf(),
        ensures
            final(self).wf(),
            final(self)@ == keep_last(old(self)@.push(line@), TAIL_CAPACITY as nat),
    {
        let ghost pre = self@;
        self.lines.push(line);
        assert(self@ =~= pre.push(line@));
        if self.lines.len() > TAIL_CAPACITY {
            self.lines.remove(0);
            assert(self@ =~= pre.push(line@).skip(1));
        }
    }

    /// The held lines joined by newlines.
    pub fn text(&self) -> (r: String)
        ensures
            r@ == joined(self@),
    {
        vec_to_text(&self.lines)
    }

    /// The held lines, oldest first.
    pub fn lines(&self) -> (r: &Vec<String>)
        ensures
            views(r@) == self@,
    {
        &self.lines
    }
}

proof fn lemma_keep_last_push(s: Seq<Seq<char>>, x: Seq<char>, n: nat)
    requires
        n > 0,
    ensures
        keep_last(keep_last(s, n).push(x), n) == keep_last(s.push(x), n),
{
    if s.len() > n {
        assert(keep_last(keep_last(s, n).push(x), n) =~= keep_last(s.push(x), n));
    } else {
        assert(keep_last(s, n) == s);
    }
}

/// Pushing lines one by one leaves exactly the last `TAIL_CAPACITY` of the
/// old contents followed by the new lines, in the order they came.
pub proof fn lemma_push_each_keeps_last(buf: Seq<Seq<char>>, added: Seq<Seq<char>>)
    requires
        buf.len() <= TAIL_CAPACITY,
    ensures
        push_each(buf, added) == keep_last(buf + added, TAIL_CAPACITY as nat),
    decreases added.len(),
{
    let n = TAIL_CAPACITY as nat;
    if added.len() == 0 {
        assert(buf + added =~= buf);
    } else {
        lemma_push_each_keeps_last(buf, added.drop_last());
        lemma_keep_last_push(buf + added.drop_last(), added.last(), n);
        assert((buf + added.drop_last()).push(added.last()) =~= buf + added);
    }
}

} // verus!
