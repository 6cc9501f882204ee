//! The status panel: the status query's text merged with friendly peer names.
use vstd::prelude::*;
use crate::cache::{after_read, ModTime, PeerNameCache};
use crate::peers::PeerNameMap;
use crate::tail::views;
use crate::text::{split_lines, text_lines, trim_range, trimmed};

verus! {

/// How a span of the status panel is shown.
#[derive(Clone, Copy, Debug, PartialEq, Eq, Structural)]
pub enum Tone {
    /// As it came.
    Plain,
    /// Emphasized: the interface line's label and value.
    Interface,
    /// Emphasized: the friendly-name annotation's label and value.
    FriendlyName,
}

/// A piece of the status panel's text and how it is shown.
pub struct StyledSpan {
    pub text: String,
    pub tone: Tone,
}

pub open spec fn span_views(v: Seq<StyledSpan>) -> Seq<(Seq<char>, Tone)> {
    v.map_values(|s: StyledSpan| (s.text@, s.tone))
}

/// The value of a line `label:value` with a non-empty rest after the ':',
/// without surrounding white space; `None` for any other line.
pub open spec fn field_value(line: Seq<char>, label: Seq<char>) -> Option<Seq<char>> {
    if line.len() > label.len() + 1 && line.take(label.len() as int) == label && line[label.len() as int]
        == ':' {
        Some(trimmed(line.skip(label.len() as int + 1)))
    } else {
        None
    }
}

/// The spans for one line of status text.
pub open spec fn merge_line(line: Seq<char>, peers: Map<Seq<char>, Seq<char>>) -> Seq<(Seq<char>, Tone)> {
    let shown = match field_value(line, "interface"@) {
        Some(v) => seq![
            ("interface"@, Tone::Interface),
            (": "@, Tone::Plain),
            (v, Tone::Interface),
            ("\n"@, Tone::Plain),
        ],
        None => seq![(line, Tone::Plain), ("\n"@, Tone::Plain)],
    };
    let note = match field_value(line, "peer"@) {
        Some(k) => if peers.contains_key(k) {
            seq![
                ("  "@, Tone::Plain),
                ("friendly-name"@, Tone::FriendlyName),
                (": "@, Tone::Plain),
                (peers[k], Tone::FriendlyName),
                ("\n"@, Tone::Plain),
            ]
        } else {
            Seq::empty()
        },
        None => Seq::empty(),
    };
    shown + note
}

/// The spans for all `lines`, in order.
pub open spec fn merge_spec(lines: Seq<Seq<char>>, peers: Map<Seq<char>, Seq<char>>) -> Seq<(Seq<char>, Tone)>
    decreases lines.len(),
{
    if lines.len() == 0 {
        Seq::empty()
    } else {
        merge_spec(lines.drop_last(), peers) + merge_line(lines.last(), peers)
    }
}

/// The trimmed value of `line` when it reads `label:` and at least one more character.
pub fn field_value_of(line: &str, label: &str) -> (r: Option<String>)
    ensures
        match r {
            Some(v) => field_value(line@, label@) == Some(v@),
            None => field_value(line@, label@) is None,
        },
{
    let n = line.unicode_len();
    let m = label.unicode_len();
    if n <= m || n - m < 2 {
        return None;
    }
    let mut i: usize = 0;
    while i < m
        invariant
            m == label@.len(),
            n == line@.len(),
            m < n,
            i <= m,
            forall|j: int| 0 <= j < i ==> line@[j] == label@[j],
        decreases m - i,
    {
        if line.get_char(i) != label.get_char(i) {
            assert(line@.take(m as int)[i as int] != label@[i as int]);
            return None;
        }
        i = i + 1;
    }
    assert(line@.take(m as int) =~= label@);
    if line.get_char(m) != ':' {
        return None;
    }
    let v = trim_range(line, m + 1, n);
    assert(line@.skip(m + 1) =~= line@.subrange(m + 1, n as int));
    Some(v)
}

fn push_span(out: &mut Vec<StyledSpan>, text: &str, tone: Tone)
    ensures
        span_views(final(out)@) == span_views(old(out)@).push((text@, tone)),
{
    out.push(StyledSpan { text: text.to_owned(), tone });
    assert(span_views(final(out)@) =~= span_views(old(out)@).push((text@, tone)));
}

/// Appends the spans for one status line.
fn merge_one(out: &mut Vec<StyledSpan>, line: &str, peers: &PeerNameMap)
    requires
        peers.wf(),
    ensures
        span_views(final(out)@) == span_views(old(out)@) + merge_line(line@, peers@),
{
    let ghost start = span_views(out@);
    match field_value_of(line, "interface") {
        Some(v) => {
            push_span(out, "interface", Tone::Interface);
            push_span(out, ": ", Tone::Plain);
            push_span(out, v.as_str(), Tone::Interface);
            push_span(out, "\n", Tone::Plain);
        },
        None => {
            push_span(out, line, Tone::Plain);
            push_span(out, "\n", Tone::Plain);
        },
    }
    let ghost mid = span_views(out@);
    match field_value_of(line, "peer") {
        Some(k) => match peers.get(k.as_str()) {
            Some(name) => {
                push_span(out, "  ", Tone::Plain);
                push_span(out, "friendly-name", Tone::FriendlyName);
                push_span(out, ": ", Tone::Plain);
                push_span(out, name.as_str(), Tone::FriendlyName);
                push_span(out, "\n", Tone::Plain);
            },
            None => {},
        },
        None => {},
    }
    assert(span_views(out@) =~= start + merge_line(line@, peers@));
}

/// The status text, line by line, with the interface line emphasized and a
/// friendly-name line after each peer line whose key has a name.
pub fn merge(wg: &str, peers: &PeerNameMap) -> (r: Vec<StyledSpan>)
    requires
        peers.wf(),
    ensures
        span_views(r@) == merge_spec(text_lines(wg@), peers@),
{
    let lines = split_lines(wg);
    let ghost ls = lines@.map_values(|l: String| l@);
    let mut out: Vec<StyledSpan> = Vec::new();
    let mut i: usize = 0;
    while i < lines.len()
        invariant
            i <= lines@.len(),
            ls == text_lines(wg@),
            ls == lines@.map_values(|l: String| l@),
            peers.wf(),
            span_views(out@) == merge_spec(ls.take(i as int), peers@),
        decreases lines@.len() - i,
    {
        merge_one(&mut out, lines[i].as_str(), peers);
        assert(ls.take(i as int + 1).drop_last() =~= ls.take(i as int));
        i = i + 1;
    }
    assert(ls.take(i as int) =~= ls);
    out
}

/// The text shown when the status query may not run.
pub open spec fn not_root_status() -> Seq<char> {
    "You must be root to run `wg`"@
}

/// The status panel's content. Without privilege it is a fixed message, and
/// neither the cache nor `read_lines` is touched; otherwise `wg_output` is
/// merged with the cache's mapping for a config file now at `modtime`.
pub fn get_wgg<F: FnOnce() -> Vec<String>>(
    privileged: bool,
    wg_output: &str,
    cache: &mut PeerNameCache,
    modtime: ModTime,
    read_lines: F,
) -> (r: Vec<StyledSpan>)
    requires
        old(cache).wf(),
        read_lines.requires(()),
    ensures
        final(cache).wf(),
        !privileged ==> final(cache)@ == old(cache)@ && span_views(r@) == seq![
            (not_root_status(), Tone::Plain),
        ],
        privileged ==> span_views(r@) == merge_spec(text_lines(wg_output@), final(cache)@.1),
        privileged ==> exists|lines: Vec<String>|
            (old(cache)@.0 != Some(modtime) ==> read_lines.ensures((), lines)) && final(cache)@
                == after_read(old(cache)@, modtime, views(lines@)),
{
    if !privileged {
        let mut out: Vec<StyledSpan> = Vec::new();
        push_span(&mut out, "You must be root to run `wg`", Tone::Plain);
        return out;
    }
    let peers = cache.current_mapping(modtime, read_lines);
    merge(wg_output, &peers)
}

/// A `peer:` line is passed through unchanged; when its key has a name it is
/// followed directly by a friendly-name line, and otherwise by nothing.
pub proof fn lemma_peer_line_annotation(line: Seq<char>, peers: Map<Seq<char>, Seq<char>>)
    requires
        field_value(line, "peer"@) is Some,
    ensures
        merge_line(line, peers) == if peers.contains_key(field_value(line, "peer"@)->0) {
            seq![
                (line, Tone::Plain),
                ("\n"@, Tone::Plain),
                ("  "@, Tone::Plain),
                ("friendly-name"@, Tone::FriendlyName),
                (": "@, Tone::Plain),
                (peers[field_value(line, "peer"@)->0], Tone::FriendlyName),
                ("\n"@, Tone::Plain),
            ]
        } else {
            seq![(line, Tone::Plain), ("\n"@, Tone::Plain)]
        },
{
    reveal_strlit("peer");
    reveal_strlit("interface");
    assert(line.take(4)[0] == 'p');
    if line.len() > 10 && line.take(9) == "interface"@ {
        assert(line.take(9)[0] == 'i');
    }
    assert(field_value(line, "interface"@) is None);
    let shown = seq![(line, Tone::Plain), ("\n"@, Tone::Plain)];
    if peers.contains_key(field_value(line, "peer"@)->0) {
        assert(merge_line(line, peers) =~= shown + seq![
            ("  "@, Tone::Plain),
            ("friendly-name"@, Tone::FriendlyName),
            (": "@, Tone::Plain),
            (peers[field_value(line, "peer"@)->0], Tone::FriendlyName),
            ("\n"@, Tone::Plain),
        ]);
    } else {
        assert(merge_line(line, peers) =~= shown);
    }
}

} // verus!
