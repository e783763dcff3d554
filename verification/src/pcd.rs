//! The ASCII PCD reader: header lines declare the fields, `DATA` starts the
//! point lines, and every point line with at least three tokens is a point.
use vstd::prelude::*;

use crate::ascii::{
    lemma_layout_lines_push, layout_lines, layout_records, parse_ascii_records, reader_start, AsciiLayout, LineReader,
    ReaderState,
};
use crate::records::{
    field_role, lemma_points_view_push, lemma_roles_of_push, point_from, point_from_spans,
    points_view, roles_of, FieldRole, PointTokens, RawPoint,
};
use crate::text::{
    lemma_lines_from_append, lemma_split_ws_nonempty, lemma_trim_first, range_starts_with,
    span_texts, spans_within,
    split_lines, split_ws, starts_with, token_spans, trim, trim_bounds,
};

verus! {

/// The effect of one line of a PCD file.
pub open spec fn pcd_step(st: ReaderState, line: Seq<char>) -> ReaderState {
    let t = trim(line);
    if t.len() == 0 {
        st
    } else if starts_with(t, "VERSION"@) || starts_with(t, "FIELDS"@) {
        if starts_with(t, "FIELDS"@) {
            ReaderState { reading: st.reading, fields: split_ws(t).skip(1), points: st.points }
        } else {
            st
        }
    } else if starts_with(t, "SIZE"@) || starts_with(t, "TYPE"@) || starts_with(t, "COUNT"@) {
        st
    } else if starts_with(t, "POINTS"@) {
        st
    } else if starts_with(t, "DATA"@) {
        ReaderState { reading: true, fields: st.fields, points: st.points }
    } else if !st.reading {
        st
    } else {
        let vals = split_ws(t);
        if vals.len() < 3 {
            st
        } else {
            ReaderState {
                reading: st.reading,
                fields: st.fields,
                points: st.points.push(point_from(st.fields, vals)),
            }
        }
    }
}

/// The points of the ASCII PCD text `content`.
pub open spec fn pcd_records(content: Seq<char>) -> Seq<PointTokens> {
    layout_records(AsciiLayout::Pcd, content)
}

/// Some line of `content`, once trimmed, begins with `DATA`.
pub open spec fn has_data_line(content: Seq<char>) -> bool {
    exists|k: int|
        0 <= k < split_lines(content).len() && starts_with(
            trim(#[trigger] split_lines(content)[k]),
            "DATA"@,
        )
}

proof fn lemma_pcd_header_only(st: ReaderState, lines: Seq<Seq<char>>)
    requires
        !st.reading,
        forall|k: int| 0 <= k < lines.len() ==> !starts_with(trim(#[trigger] lines[k]), "DATA"@),
    ensures
        layout_lines(AsciiLayout::Pcd, st, lines).points == st.points,
    decreases lines.len(),
{
    if lines.len() > 0 {
        let next = pcd_step(st, lines[0]);
        assert(!starts_with(trim(lines[0]), "DATA"@));
        assert(!next.reading && next.points == st.points);
        assert forall|k: int| 0 <= k < lines.drop_first().len() implies !starts_with(
            trim(#[trigger] lines.drop_first()[k]),
            "DATA"@,
        ) by {
            assert(lines.drop_first()[k] == lines[k + 1]);
        }
        lemma_pcd_header_only(next, lines.drop_first());
    }
}

/// Points are read only after a `DATA` line: a PCD text without one has none.
pub proof fn law_pcd_points_follow_data(content: Seq<char>)
    requires
        !has_data_line(content),
    ensures
        pcd_records(content).len() == 0,
{
    lemma_pcd_header_only(reader_start(), split_lines(content));
}

/// A trimmed line that begins with one of the header keywords other than `DATA`.
pub open spec fn is_header_line(t: Seq<char>) -> bool {
    ||| starts_with(t, "VERSION"@)
    ||| starts_with(t, "FIELDS"@)
    ||| starts_with(t, "SIZE"@)
    ||| starts_with(t, "TYPE"@)
    ||| starts_with(t, "COUNT"@)
    ||| starts_with(t, "POINTS"@)
}

/// A trimmed line that starts the point lines.
pub open spec fn is_data_line(t: Seq<char>) -> bool {
    !is_header_line(t) && starts_with(t, "DATA"@)
}

/// A trimmed line that gives a point once the point lines have started: no
/// header keyword, no `DATA`, and at least three tokens.
pub open spec fn is_point_line(t: Seq<char>) -> bool {
    !is_header_line(t) && !starts_with(t, "DATA"@) && split_ws(t).len() >= 3
}

/// One of the first `n` lines is a `DATA` line.
pub open spec fn data_seen(lines: Seq<Seq<char>>, n: int) -> bool
    decreases n,
{
    if n <= 0 {
        false
    } else {
        data_seen(lines, n - 1) || is_data_line(trim(lines[n - 1]))
    }
}

/// The field names declared by the last `FIELDS` line among the first `n`
/// lines (its tokens after the keyword), or none.
pub open spec fn fields_before(lines: Seq<Seq<char>>, n: int) -> Seq<Seq<char>>
    decreases n,
{
    if n <= 0 {
        Seq::empty()
    } else if starts_with(trim(lines[n - 1]), "FIELDS"@) {
        split_ws(trim(lines[n - 1])).skip(1)
    } else {
        fields_before(lines, n - 1)
    }
}

/// The points of the first `n` lines: one for each point line that follows a
/// `DATA` line, its values matched by position to the fields declared before it.
pub open spec fn pcd_points(lines: Seq<Seq<char>>, n: int) -> Seq<PointTokens>
    decreases n,
{
    if n <= 0 {
        Seq::empty()
    } else {
        let t = trim(lines[n - 1]);
        if data_seen(lines, n - 1) && is_point_line(t) {
            pcd_points(lines, n - 1).push(point_from(fields_before(lines, n - 1), split_ws(t)))
        } else {
            pcd_points(lines, n - 1)
        }
    }
}

proof fn lemma_pcd_prefix(lines: Seq<Seq<char>>, n: int)
    requires
        0 <= n <= lines.len(),
    ensures
        layout_lines(AsciiLayout::Pcd, reader_start(), lines.take(n)).reading == data_seen(lines, n),
        layout_lines(AsciiLayout::Pcd, reader_start(), lines.take(n)).fields == fields_before(lines, n),
        layout_lines(AsciiLayout::Pcd, reader_start(), lines.take(n)).points == pcd_points(lines, n),
    decreases n,
{
    reveal_strlit("FIELDS");
    reveal_strlit("DATA");
    if n == 0 {
        assert(lines.take(0) =~= Seq::<Seq<char>>::empty());
    } else {
        lemma_pcd_prefix(lines, n - 1);
        assert(lines.take(n) =~= lines.take(n - 1).push(lines[n - 1]));
        lemma_layout_lines_push(AsciiLayout::Pcd, reader_start(), lines.take(n - 1), lines[n - 1]);
        let t = trim(lines[n - 1]);
        if t.len() == 0 {
            assert(split_ws(t) =~= Seq::<Seq<char>>::empty());
        }
    }
}

/// The PCD reader in full: a text gives one point for each line, in order,
/// that comes after a `DATA` line and, trimmed, has no header keyword, does not
/// begin with `DATA` and has at least three tokens; its values are assigned to
/// the field names of the last `FIELDS` line before it by position. Any other
/// line gives nothing, and no text is refused.
pub proof fn law_pcd_reader(content: Seq<char>)
    ensures
        pcd_records(content) == pcd_points(split_lines(content), split_lines(content).len() as int),
{
    let lines = split_lines(content);
    lemma_pcd_prefix(lines, lines.len() as int);
    assert(lines.take(lines.len() as int) =~= lines);
}

proof fn lemma_pcd_prefix_stable(lines: Seq<Seq<char>>, l: Seq<char>, k: int)
    requires
        0 <= k <= lines.len(),
    ensures
        data_seen(lines.push(l), k) == data_seen(lines, k),
        fields_before(lines.push(l), k) == fields_before(lines, k),
        pcd_points(lines.push(l), k) == pcd_points(lines, k),
    decreases k,
{
    if k > 0 {
        lemma_pcd_prefix_stable(lines, l, k - 1);
        assert(lines.push(l)[k - 1] == lines[k - 1]);
    }
}

/// A point line appended to a PCD text whose point lines have started adds
/// exactly one point, after all the others: the values of the new line
/// assigned to the fields declared so far.
pub proof fn law_pcd_appended_point(content: Seq<char>, l: Seq<char>)
    requires
        !l.contains('\n'),
        data_seen(split_lines(content), split_lines(content).len() as int),
        is_point_line(trim(l)),
    ensures
        pcd_records(content + seq!['\n'] + l) == pcd_records(content).push(
            point_from(
                fields_before(split_lines(content), split_lines(content).len() as int),
                split_ws(trim(l)),
            ),
        ),
{
    let lines = split_lines(content);
    let n = lines.len() as int;
    lemma_lines_from_append(content, Seq::empty(), l);
    law_pcd_reader(content);
    law_pcd_reader(content + seq!['\n'] + l);
    lemma_pcd_prefix_stable(lines, l, n);
    assert(lines.push(l)[n] == l);
}

/// Reads one line of a PCD file, `s[lo..hi]`, into `r`.
pub(crate) fn read_pcd_line(r: &mut LineReader, s: &Vec<char>, lo: usize, hi: usize)
    requires
        old(r).wf(),
        lo <= hi <= s.len(),
    ensures
        final(r).wf(),
        final(r).state() == pcd_step(old(r).state(), s@.subrange(lo as int, hi as int)),
{
    let (a, b) = trim_bounds(s, lo, hi);
    let ghost t = s@.subrange(a as int, b as int);
    if a == b {
        return ;
    }
    let is_version = range_starts_with(s, a, b, "VERSION");
    let is_fields = range_starts_with(s, a, b, "FIELDS");
    if is_version || is_fields {
        if is_fields {
            let spans = token_spans(s, a, b);
            proof {
                lemma_trim_first(s@.subrange(lo as int, hi as int));
                lemma_split_ws_nonempty(t);
            }
            let ghost names = split_ws(t).skip(1);
            let mut roles: Vec<FieldRole> = Vec::new();
            let mut j: usize = 1;
            while j < spans.len()
                invariant
                    1 <= j <= spans@.len(),
                    spans_within(spans@, a as int, b as int),
                    b <= s@.len(),
                    span_texts(s@, spans@) == split_ws(t),
                    names == split_ws(t).skip(1),
                    roles@ == roles_of(names.take(j - 1)),
                decreases spans@.len() - j,
            {
                let (p, q) = spans[j];
                assert(spans@[j as int] == (p, q));
                let role = field_role(s, p, q);
                proof {
                    lemma_roles_of_push(names.take(j - 1), names[j - 1]);
                    assert(names.take(j - 1).push(names[j - 1]) =~= names.take(j as int));
                }
                roles.push(role);
                j = j + 1;
            }
            assert(names.take(j - 1) =~= names);
            r.roles = roles;
            r.fields = Ghost(names);
        }
        return ;
    }
    if range_starts_with(s, a, b, "SIZE") || range_starts_with(s, a, b, "TYPE")
        || range_starts_with(s, a, b, "COUNT") {
        return ;
    }
    if range_starts_with(s, a, b, "POINTS") {
        return ;
    }
    if range_starts_with(s, a, b, "DATA") {
        r.reading = true;
        return ;
    }
    if !r.reading {
        return ;
    }
    let spans = token_spans(s, a, b);
    if spans.len() < 3 {
        return ;
    }
    let p = point_from_spans(s, &r.roles, &spans);
    proof {
        lemma_points_view_push(r.points@, p);
    }
    r.points.push(p);
}

/// The points of the ASCII PCD text `content`, each coordinate as the text of
/// its token: the lines up to `DATA` are the header, and each later line with at
/// least three tokens is a point whose values are matched to the `FIELDS` names
/// in order.
pub fn parse_pcd_records(content: &str) -> (points: Vec<RawPoint>)
    ensures
        points_view(points@) == pcd_records(content@),
{
    parse_ascii_records(AsciiLayout::Pcd, content)
}

} // verus!
