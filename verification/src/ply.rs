//! The ASCII PLY reader: `property` lines declare the fields, `element vertex`
//! or `end_header` starts the point lines, and every later non-empty line is a
//! point.
use vstd::prelude::*;

use crate::ascii::{
    lemma_layout_lines_push, layout_lines, layout_records, parse_ascii_records, reader_start, AsciiLayout, LineReader,
    ReaderState,
};
use crate::records::{
    field_role, lemma_points_view_push, lemma_roles_of_push, point_from, point_from_spans,
    points_view, PointTokens, RawPoint,
};
use crate::text::{
    lemma_lines_from_append, range_equals, range_starts_with, span_texts, split_lines, split_ws,
    starts_with, token_spans, trim, trim_bounds,
};

verus! {

/// The last token of `t`, or nothing when it has none.
pub open spec fn last_token(t: Seq<char>) -> Seq<char> {
    let toks = split_ws(t);
    if toks.len() == 0 {
        Seq::empty()
    } else {
        toks.last()
    }
}

/// The effect of one line of a PLY file.
pub open spec fn ply_step(st: ReaderState, line: Seq<char>) -> ReaderState {
    let t = trim(line);
    if t.len() == 0 {
        st
    } else if starts_with(t, "element vertex"@) {
        ReaderState { reading: true, fields: st.fields, points: st.points }
    } else if starts_with(t, "property"@) {
        ReaderState { reading: st.reading, fields: st.fields.push(last_token(t)), points: st.points }
    } else if t == "end_header"@ {
        ReaderState { reading: true, fields: st.fields, points: st.points }
    } else if !st.reading || starts_with(t, "end_header"@) {
        st
    } else {
        let vals = split_ws(t);
        if vals.len() == 0 {
            st
        } else {
            ReaderState {
                reading: st.reading,
                fields: st.fields,
                points: st.points.push(point_from(st.fields, vals)),
            }
        }
    }
}

/// The points of the ASCII PLY text `content`.
pub open spec fn ply_records(content: Seq<char>) -> Seq<PointTokens> {
    layout_records(AsciiLayout::Ply, content)
}

/// A trimmed line that starts the vertex lines.
pub open spec fn opens_vertices(t: Seq<char>) -> bool {
    starts_with(t, "element vertex"@) || t == "end_header"@
}

/// Some line of `content` starts the vertex lines.
pub open spec fn has_vertex_start(content: Seq<char>) -> bool {
    exists|k: int|
        0 <= k < split_lines(content).len() && opens_vertices(trim(#[trigger] split_lines(content)[k]))
}

proof fn lemma_ply_header_only(st: ReaderState, lines: Seq<Seq<char>>)
    requires
        !st.reading,
        forall|k: int| 0 <= k < lines.len() ==> !opens_vertices(trim(#[trigger] lines[k])),
    ensures
        layout_lines(AsciiLayout::Ply, st, lines).points == st.points,
    decreases lines.len(),
{
    if lines.len() > 0 {
        let next = ply_step(st, lines[0]);
        assert(!opens_vertices(trim(lines[0])));
        assert(!next.reading && next.points == st.points);
        assert forall|k: int| 0 <= k < lines.drop_first().len() implies !opens_vertices(
            trim(#[trigger] lines.drop_first()[k]),
        ) by {
            assert(lines.drop_first()[k] == lines[k + 1]);
        }
        lemma_ply_header_only(next, lines.drop_first());
    }
}

/// Points are read only once a line has started the vertex lines (`element
/// vertex ...` or `end_header`): a PLY text without one has none.
pub proof fn law_ply_points_follow_header(content: Seq<char>)
    requires
        !has_vertex_start(content),
    ensures
        ply_records(content).len() == 0,
{
    lemma_ply_header_only(reader_start(), split_lines(content));
}

/// A trimmed line that declares a field.
pub open spec fn is_property_line(t: Seq<char>) -> bool {
    !starts_with(t, "element vertex"@) && starts_with(t, "property"@)
}

/// A trimmed line that starts the vertex lines.
pub open spec fn is_vertex_start(t: Seq<char>) -> bool {
    starts_with(t, "element vertex"@) || (!starts_with(t, "property"@) && t == "end_header"@)
}

/// A trimmed line that gives a point once the vertex lines have started: not
/// empty, and neither an `element vertex`, `property` nor `end_header` line.
pub open spec fn is_vertex_line(t: Seq<char>) -> bool {
    &&& !starts_with(t, "element vertex"@)
    &&& !starts_with(t, "property"@)
    &&& !starts_with(t, "end_header"@)
    &&& split_ws(t).len() > 0
}

/// One of the first `n` lines starts the vertex lines.
pub open spec fn vertices_started(lines: Seq<Seq<char>>, n: int) -> bool
    decreases n,
{
    if n <= 0 {
        false
    } else {
        vertices_started(lines, n - 1) || is_vertex_start(trim(lines[n - 1]))
    }
}

/// The field names declared among the first `n` lines: the last token of each
/// `property` line, in order.
pub open spec fn ply_fields_before(lines: Seq<Seq<char>>, n: int) -> Seq<Seq<char>>
    decreases n,
{
    if n <= 0 {
        Seq::empty()
    } else if is_property_line(trim(lines[n - 1])) {
        ply_fields_before(lines, n - 1).push(last_token(trim(lines[n - 1])))
    } else {
        ply_fields_before(lines, n - 1)
    }
}

/// The points of the first `n` lines: one for each vertex line that follows
/// the start of the vertex lines, its values matched by position to the fields
/// declared before it.
pub open spec fn ply_points(lines: Seq<Seq<char>>, n: int) -> Seq<PointTokens>
    decreases n,
{
    if n <= 0 {
        Seq::empty()
    } else {
        let t = trim(lines[n - 1]);
        if vertices_started(lines, n - 1) && is_vertex_line(t) {
            ply_points(lines, n - 1).push(point_from(ply_fields_before(lines, n - 1), split_ws(t)))
        } else {
            ply_points(lines, n - 1)
        }
    }
}

proof fn lemma_ply_prefix(lines: Seq<Seq<char>>, n: int)
    requires
        0 <= n <= lines.len(),
    ensures
        layout_lines(AsciiLayout::Ply, reader_start(), lines.take(n)).reading == vertices_started(
            lines,
            n,
        ),
        layout_lines(AsciiLayout::Ply, reader_start(), lines.take(n)).fields == ply_fields_before(
            lines,
            n,
        ),
        layout_lines(AsciiLayout::Ply, reader_start(), lines.take(n)).points == ply_points(lines, n),
    decreases n,
{
    reveal_strlit("element vertex");
    reveal_strlit("property");
    reveal_strlit("end_header");
    if n == 0 {
        assert(lines.take(0) =~= Seq::<Seq<char>>::empty());
    } else {
        lemma_ply_prefix(lines, n - 1);
        assert(lines.take(n) =~= lines.take(n - 1).push(lines[n - 1]));
        lemma_layout_lines_push(AsciiLayout::Ply, reader_start(), lines.take(n - 1), lines[n - 1]);
        let t = trim(lines[n - 1]);
        if t.len() == 0 {
            assert(split_ws(t) =~= Seq::<Seq<char>>::empty());
        }
        if t == "end_header"@ {
            assert(starts_with(t, "end_header"@)) by {
                assert(t.take(t.len() as int) =~= t);
            }
        }
    }
}

/// The PLY reader in full: the field names are the last tokens of the
/// `property` lines, in order; once a line has started the vertex lines
/// (`element vertex ...` or `end_header`), each later non-empty line that is not
/// an `element vertex`, `property` or `end_header` line gives one point, its
/// values assigned by position to the fields declared before it. Any other line
/// gives nothing, and no text is refused.
pub proof fn law_ply_reader(content: Seq<char>)
    ensures
        ply_records(content) == ply_points(split_lines(content), split_lines(content).len() as int),
{
    let lines = split_lines(content);
    lemma_ply_prefix(lines, lines.len() as int);
    assert(lines.take(lines.len() as int) =~= lines);
}

proof fn lemma_ply_prefix_stable(lines: Seq<Seq<char>>, l: Seq<char>, k: int)
    requires
        0 <= k <= lines.len(),
    ensures
        vertices_started(lines.push(l), k) == vertices_started(lines, k),
        ply_fields_before(lines.push(l), k) == ply_fields_before(lines, k),
        ply_points(lines.push(l), k) == ply_points(lines, k),
    decreases k,
{
    if k > 0 {
        lemma_ply_prefix_stable(lines, l, k - 1);
        assert(lines.push(l)[k - 1] == lines[k - 1]);
    }
}

/// A vertex line appended to a PLY text whose vertex lines have started adds
/// exactly one point, after all the others: the values of the new line
/// assigned to the fields declared so far.
pub proof fn law_ply_appended_point(content: Seq<char>, l: Seq<char>)
    requires
        !l.contains('\n'),
        vertices_started(split_lines(content), split_lines(content).len() as int),
        is_vertex_line(trim(l)),
    ensures
        ply_records(content + seq!['\n'] + l) == ply_records(content).push(
            point_from(
                ply_fields_before(split_lines(content), split_lines(content).len() as int),
                split_ws(trim(l)),
            ),
        ),
{
    let lines = split_lines(content);
    let n = lines.len() as int;
    lemma_lines_from_append(content, Seq::empty(), l);
    law_ply_reader(content);
    law_ply_reader(content + seq!['\n'] + l);
    lemma_ply_prefix_stable(lines, l, n);
    assert(lines.push(l)[n] == l);
}

/// Reads one line of a PLY file, `s[lo..hi]`, into `r`.
pub(crate) fn read_ply_line(r: &mut LineReader, s: &Vec<char>, lo: usize, hi: usize)
    requires
        old(r).wf(),
        lo <= hi <= s.len(),
    ensures
        final(r).wf(),
        final(r).state() == ply_step(old(r).state(), s@.subrange(lo as int, hi as int)),
{
    let (a, b) = trim_bounds(s, lo, hi);
    let ghost t = s@.subrange(a as int, b as int);
    if a == b {
        return ;
    }
    if range_starts_with(s, a, b, "element vertex") {
        r.reading = true;
        return ;
    }
    if range_starts_with(s, a, b, "property") {
        let spans = token_spans(s, a, b);
        let ghost name = last_token(t);
        let ghost old_fields = r.fields@;
        let role = if spans.len() == 0 {
            field_role(s, a, a)
        } else {
            let (p, q) = spans[spans.len() - 1];
            assert(spans@[spans@.len() - 1] == (p, q));
            field_role(s, p, q)
        };
        assert(s@.subrange(a as int, a as int) =~= Seq::<char>::empty());
        proof {
            lemma_roles_of_push(old_fields, name);
        }
        r.roles.push(role);
        r.fields = Ghost(old_fields.push(name));
        return ;
    }
    if range_equals(s, a, b, "end_header") {
        r.reading = true;
        return ;
    }
    if !r.reading || range_starts_with(s, a, b, "end_header") {
        return ;
    }
    let spans = token_spans(s, a, b);
    if spans.len() == 0 {
        return ;
    }
    let p = point_from_spans(s, &r.roles, &spans);
    proof {
        lemma_points_view_push(r.points@, p);
    }
    r.points.push(p);
}

/// The points of the ASCII PLY text `content`, each coordinate as the text of
/// its token: `property` lines name the fields in order, `element vertex` or
/// `end_header` starts the point lines, and each later non-empty line is a
/// point whose values are matched to the field names in order.
pub fn parse_ply_records(content: &str) -> (points: Vec<RawPoint>)
    ensures
        points_view(points@) == ply_records(content@),
{
    parse_ascii_records(AsciiLayout::Ply, content)
}

} // verus!
