//! The line-by-line driver shared by the ASCII PCD and PLY readers.
use vstd::prelude::*;

use crate::pcd::{pcd_step, read_pcd_line};
use crate::ply::{ply_step, read_ply_line};
use crate::records::{points_view, roles_of, FieldRole, PointTokens, RawPoint};
use crate::text::{
    collect_chars, lemma_lines_from_crlf, lemma_lines_from_trailing_newline, lemma_trim_push_ws,
    lines_from, split_lines, trim, trim_end, trim_start,
    with_crlf,
};

verus! {

/// The two ASCII point-cloud layouts.
#[derive(Debug, Clone, Copy, PartialEq, Eq, Structural)]
pub enum AsciiLayout {
    Pcd,
    Ply,
}

/// A reader's state between lines: whether point lines are being read, the
/// declared field names, and the points read so far.
pub struct ReaderState {
    pub reading: bool,
    pub fields: Seq<Seq<char>>,
    pub points: Seq<PointTokens>,
}

pub open spec fn reader_start() -> ReaderState {
    ReaderState { reading: false, fields: Seq::empty(), points: Seq::empty() }
}

/// The effect of one line under `layout`.
pub open spec fn layout_step(layout: AsciiLayout, st: ReaderState, line: Seq<char>) -> ReaderState {
    match layout {
        AsciiLayout::Pcd => pcd_step(st, line),
        AsciiLayout::Ply => ply_step(st, line),
    }
}

/// The state after the lines `lines`, in order, starting from `st`.
pub open spec fn layout_lines(layout: AsciiLayout, st: ReaderState, lines: Seq<Seq<char>>) -> ReaderState
    decreases lines.len(),
{
    if lines.len() == 0 {
        st
    } else {
        layout_lines(layout, layout_step(layout, st, lines[0]), lines.drop_first())
    }
}

/// The points of the text `content` read under `layout`.
pub open spec fn layout_records(layout: AsciiLayout, content: Seq<char>) -> Seq<PointTokens> {
    layout_lines(layout, reader_start(), split_lines(content)).points
}

/// Reading one more line is one more step.
pub(crate) proof fn lemma_layout_lines_push(
    layout: AsciiLayout,
    st: ReaderState,
    lines: Seq<Seq<char>>,
    line: Seq<char>,
)
    ensures
        layout_lines(layout, st, lines.push(line)) == layout_step(
            layout,
            layout_lines(layout, st, lines),
            line,
        ),
    decreases lines.len(),
{
    let ext = lines.push(line);
    assert(ext[0] == (if lines.len() == 0 { line } else { lines[0] }));
    if lines.len() == 0 {
        assert(ext.drop_first() =~= Seq::<Seq<char>>::empty());
        assert(layout_lines(layout, st, lines) == st);
        assert(layout_lines(layout, layout_step(layout, st, line), ext.drop_first()) == layout_step(
            layout,
            st,
            line,
        ));
    } else {
        assert(ext.drop_first() =~= lines.drop_first().push(line));
        lemma_layout_lines_push(layout, layout_step(layout, st, lines[0]), lines.drop_first(), line);
    }
}

proof fn lemma_lines_same_trim(
    layout: AsciiLayout,
    st: ReaderState,
    a: Seq<Seq<char>>,
    b: Seq<Seq<char>>,
)
    requires
        a.len() == b.len(),
        forall|k: int| 0 <= k < a.len() ==> trim(#[trigger] a[k]) == trim(b[k]),
    ensures
        layout_lines(layout, st, a) == layout_lines(layout, st, b),
    decreases a.len(),
{
    if a.len() > 0 {
        assert(trim(a[0]) == trim(b[0]));
        assert(layout_step(layout, st, a[0]) == layout_step(layout, st, b[0]));
        assert forall|k: int| 0 <= k < a.drop_first().len() implies trim(
            #[trigger] a.drop_first()[k],
        ) == trim(b.drop_first()[k]) by {
            assert(a.drop_first()[k] == a[k + 1]);
            assert(b.drop_first()[k] == b[k + 1]);
        }
        lemma_lines_same_trim(layout, layout_step(layout, st, a[0]), a.drop_first(), b.drop_first());
    }
}

/// Line endings do not matter: a text written with carriage return and line
/// feed reads exactly as the same text with line feeds alone.
pub proof fn law_crlf_reads_as_lf(layout: AsciiLayout, content: Seq<char>)
    ensures
        layout_records(layout, with_crlf(content)) == layout_records(layout, content),
{
    let a = split_lines(with_crlf(content));
    let b = split_lines(content);
    lemma_lines_from_crlf(content, Seq::empty());
    assert forall|k: int| 0 <= k < a.len() implies trim(#[trigger] a[k]) == trim(b[k]) by {
        if a[k] != b[k] {
            lemma_trim_push_ws(b[k], '\r');
        }
    }
    lemma_lines_same_trim(layout, reader_start(), a, b);
}

/// A trailing newline changes nothing: the last line of a text is read
/// whether or not a newline ends it.
pub proof fn law_trailing_newline(layout: AsciiLayout, content: Seq<char>)
    ensures
        layout_records(layout, content.push('\n')) == layout_records(layout, content),
{
    let lines = split_lines(content);
    lemma_lines_from_trailing_newline(content, Seq::empty());
    lemma_layout_lines_push(layout, reader_start(), lines, Seq::empty());
    let e = Seq::<char>::empty();
    assert(trim_start(e) == e);
    assert(trim_end(e) == e);
    assert(trim(e).len() == 0);
}

/// The exec counterpart of `ReaderState`: the roles of the declared fields stand
/// for their names.
pub struct LineReader {
    pub reading: bool,
    pub roles: Vec<FieldRole>,
    pub points: Vec<RawPoint>,
    pub fields: Ghost<Seq<Seq<char>>>,
}

impl LineReader {
    pub open spec fn state(&self) -> ReaderState {
        ReaderState { reading: self.reading, fields: self.fields@, points: points_view(self.points@) }
    }

    pub open spec fn wf(&self) -> bool {
        self.roles@ == roles_of(self.fields@)
    }
}

fn read_line(layout: AsciiLayout, r: &mut LineReader, s: &Vec<char>, lo: usize, hi: usize)
    requires
        old(r).wf(),
        lo <= hi <= s.len(),
    ensures
        final(r).wf(),
        final(r).state() == layout_step(layout, old(r).state(), s@.subrange(lo as int, hi as int)),
{
    match layout {
        AsciiLayout::Pcd => read_pcd_line(r, s, lo, hi),
        AsciiLayout::Ply => read_ply_line(r, s, lo, hi),
    }
}

/// The points of the text `content` read under `layout`, each coordinate as the
/// text of its token.
pub fn parse_ascii_records(layout: AsciiLayout, content: &str) -> (points: Vec<RawPoint>)
    ensures
        points_view(points@) == layout_records(layout, content@),
{
    let s = collect_chars(content);
    let n = s.len();
    let mut reader = LineReader {
        reading: false,
        roles: Vec::new(),
        points: Vec::new(),
        fields: Ghost(Seq::empty()),
    };
    assert(reader.roles@ =~= roles_of(reader.fields@));
    assert(points_view(reader.points@) =~= Seq::<PointTokens>::empty());
    assert(s@.subrange(0, n as int) =~= s@);
    assert(s@.subrange(0, 0) =~= Seq::<char>::empty());
    let mut start: usize = 0;
    let mut i: usize = 0;
    while i < n
        invariant
            n == s@.len(),
            start <= i <= n,
            reader.wf(),
            s@ == content@,
            layout_records(layout, s@) == layout_lines(
                layout,
                reader.state(),
                lines_from(s@.subrange(i as int, n as int), s@.subrange(start as int, i as int)),
            ).points,
        decreases n - i,
    {
        let ghost rest = s@.subrange(i as int, n as int);
        let ghost cur = s@.subrange(start as int, i as int);
        assert(rest[0] == s@[i as int]);
        assert(rest.drop_first() =~= s@.subrange(i + 1, n as int));
        if s[i] == '\n' {
            let ghost tail = lines_from(s@.subrange(i + 1, n as int), Seq::empty());
            assert((seq![cur] + tail)[0] == cur);
            assert((seq![cur] + tail).drop_first() =~= tail);
            read_line(layout, &mut reader, &s, start, i);
            assert(s@.subrange(i + 1, i + 1) =~= Seq::<char>::empty());
            start = i + 1;
        } else {
            assert(cur.push(s@[i as int]) =~= s@.subrange(start as int, i + 1));
        }
        i = i + 1;
    }
    let ghost last = s@.subrange(start as int, n as int);
    assert(s@.subrange(n as int, n as int) =~= Seq::<char>::empty());
    assert(seq![last].drop_first() =~= Seq::<Seq<char>>::empty());
    let ghost before = reader.state();
    read_line(layout, &mut reader, &s, start, n);
    assert(layout_lines(layout, before, seq![last]) == layout_lines(
        layout,
        layout_step(layout, before, last),
        Seq::empty(),
    ));
    reader.points
}

} // verus!
