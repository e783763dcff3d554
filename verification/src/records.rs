//! Point records as the ASCII readers produce them: for each coordinate, the
//! text of the value token that the header's field list assigns to it.
use vstd::prelude::*;

use crate::text::{copy_range, range_equals, span_texts, spans_within};

verus! {

/// What a declared field of an ASCII point cloud feeds.
#[derive(Debug, Clone, Copy, PartialEq, Eq, Structural)]
pub enum FieldRole {
    X,
    Y,
    Z,
    Intensity,
    Other,
}

/// The role of a field name: `x`, `y`, `z` and `intensity` feed the point,
/// any other name is read and ignored.
pub open spec fn role_of(name: Seq<char>) -> FieldRole {
    if name == "x"@ {
        FieldRole::X
    } else if name == "y"@ {
        FieldRole::Y
    } else if name == "z"@ {
        FieldRole::Z
    } else if name == "intensity"@ {
        FieldRole::Intensity
    } else {
        FieldRole::Other
    }
}

/// The roles of a list of field names.
pub open spec fn roles_of(names: Seq<Seq<char>>) -> Seq<FieldRole> {
    names.map_values(|name: Seq<char>| role_of(name))
}

/// The value tokens of one point: `None` where no field supplied the coordinate,
/// which then reads as zero.
pub struct PointTokens {
    pub x: Option<Seq<char>>,
    pub y: Option<Seq<char>>,
    pub z: Option<Seq<char>>,
    pub intensity: Option<Seq<char>>,
}

/// Among the first `n` pairs of (role, value), the value of the last pair with role `role`.
pub open spec fn pick_upto(roles: Seq<FieldRole>, vals: Seq<Seq<char>>, role: FieldRole, n: int) -> Option<
    Seq<char>,
>
    decreases n,
{
    if n <= 0 {
        None
    } else if roles[n - 1] == role {
        Some(vals[n - 1])
    } else {
        pick_upto(roles, vals, role, n - 1)
    }
}

/// The value assigned to `role` when the fields are walked in order against the
/// values, stopping at the shorter list: the last assignment wins.
pub open spec fn pick(roles: Seq<FieldRole>, vals: Seq<Seq<char>>, role: FieldRole) -> Option<
    Seq<char>,
> {
    let n = if roles.len() <= vals.len() {
        roles.len()
    } else {
        vals.len()
    };
    pick_upto(roles, vals, role, n as int)
}

/// The point that a data line with tokens `vals` gives under the field names `fields`.
pub open spec fn point_from(fields: Seq<Seq<char>>, vals: Seq<Seq<char>>) -> PointTokens {
    point_from_roles(roles_of(fields), vals)
}

pub open spec fn point_from_roles(roles: Seq<FieldRole>, vals: Seq<Seq<char>>) -> PointTokens {
    PointTokens {
        x: pick(roles, vals, FieldRole::X),
        y: pick(roles, vals, FieldRole::Y),
        z: pick(roles, vals, FieldRole::Z),
        intensity: pick(roles, vals, FieldRole::Intensity),
    }
}

/// One point of an ASCII point cloud, each coordinate as the text of its token.
#[derive(Debug, Clone, PartialEq, Eq)]
pub struct RawPoint {
    pub x: Option<Vec<char>>,
    pub y: Option<Vec<char>>,
    pub z: Option<Vec<char>>,
    pub intensity: Option<Vec<char>>,
}

pub open spec fn opt_chars(o: Option<Vec<char>>) -> Option<Seq<char>> {
    match o {
        Some(v) => Some(v@),
        None => None,
    }
}

impl View for RawPoint {
    type V = PointTokens;

    open spec fn view(&self) -> PointTokens {
        PointTokens {
            x: opt_chars(self.x),
            y: opt_chars(self.y),
            z: opt_chars(self.z),
            intensity: opt_chars(self.intensity),
        }
    }
}

/// The views of a list of points.
pub open spec fn points_view(points: Seq<RawPoint>) -> Seq<PointTokens> {
    points.map_values(|p: RawPoint| p@)
}

pub(crate) proof fn lemma_points_view_push(points: Seq<RawPoint>, p: RawPoint)
    ensures
        points_view(points.push(p)) == points_view(points).push(p@),
{
    assert(points_view(points.push(p)) =~= points_view(points).push(p@));
}

pub(crate) proof fn lemma_roles_of_push(names: Seq<Seq<char>>, name: Seq<char>)
    ensures
        roles_of(names.push(name)) == roles_of(names).push(role_of(name)),
{
    assert(roles_of(names.push(name)) =~= roles_of(names).push(role_of(name)));
}

/// The role of the field named by `s[lo..hi]`.
pub(crate) fn field_role(s: &Vec<char>, lo: usize, hi: usize) -> (r: FieldRole)
    requires
        lo <= hi <= s.len(),
    ensures
        r == role_of(s@.subrange(lo as int, hi as int)),
{
    if range_equals(s, lo, hi, "x") {
        FieldRole::X
    } else if range_equals(s, lo, hi, "y") {
        FieldRole::Y
    } else if range_equals(s, lo, hi, "z") {
        FieldRole::Z
    } else if range_equals(s, lo, hi, "intensity") {
        FieldRole::Intensity
    } else {
        FieldRole::Other
    }
}

pub open spec fn chosen(vals: Seq<Seq<char>>, k: Option<usize>) -> Option<Seq<char>> {
    match k {
        Some(j) => Some(vals[j as int]),
        None => None,
    }
}

fn copy_chosen(s: &Vec<char>, spans: &Vec<(usize, usize)>, k: Option<usize>) -> (r: Option<
    Vec<char>,
>)
    requires
        spans_within(spans@, 0, s@.len() as int),
        k matches Some(j) ==> j < spans@.len(),
    ensures
        opt_chars(r) == chosen(span_texts(s@, spans@), k),
{
    match k {
        Some(j) => {
            let (a, b) = spans[j];
            assert(spans@[j as int] == (a, b));
            Some(copy_range(s, a, b))
        },
        None => None,
    }
}

/// The point that the value tokens `spans` of a data line give under `roles`.
pub(crate) fn point_from_spans(s: &Vec<char>, roles: &Vec<FieldRole>, spans: &Vec<(usize, usize)>) -> (p:
    RawPoint)
    requires
        spans_within(spans@, 0, s@.len() as int),
    ensures
        p@ == point_from_roles(roles@, span_texts(s@, spans@)),
{
    let ghost vals = span_texts(s@, spans@);
    let n = if roles.len() <= spans.len() {
        roles.len()
    } else {
        spans.len()
    };
    let mut kx: Option<usize> = None;
    let mut ky: Option<usize> = None;
    let mut kz: Option<usize> = None;
    let mut ki: Option<usize> = None;
    let mut i: usize = 0;
    while i < n
        invariant
            i <= n,
            n <= roles@.len(),
            n <= spans@.len(),
            n == (if roles@.len() <= spans@.len() {
                roles@.len()
            } else {
                spans@.len()
            }),
            vals == span_texts(s@, spans@),
            kx matches Some(j) ==> j < i,
            ky matches Some(j) ==> j < i,
            kz matches Some(j) ==> j < i,
            ki matches Some(j) ==> j < i,
            chosen(vals, kx) == pick_upto(roles@, vals, FieldRole::X, i as int),
            chosen(vals, ky) == pick_upto(roles@, vals, FieldRole::Y, i as int),
            chosen(vals, kz) == pick_upto(roles@, vals, FieldRole::Z, i as int),
            chosen(vals, ki) == pick_upto(roles@, vals, FieldRole::Intensity, i as int),
        decreases n - i,
    {
        match roles[i] {
            FieldRole::X => {
                kx = Some(i);
            },
            FieldRole::Y => {
                ky = Some(i);
            },
            FieldRole::Z => {
                kz = Some(i);
            },
            FieldRole::Intensity => {
                ki = Some(i);
            },
            FieldRole::Other => {},
        }
        i = i + 1;
    }
    RawPoint {
        x: copy_chosen(s, spans, kx),
        y: copy_chosen(s, spans, ky),
        z: copy_chosen(s, spans, kz),
        intensity: copy_chosen(s, spans, ki),
    }
}

} // verus!
