//! Choosing the point-cloud reader from a file's extension.
use vstd::prelude::*;

verus! {

/// The point-cloud layouts that can be read.
#[derive(Debug, Clone, Copy, PartialEq, Eq, Structural)]
pub enum PointCloudFormat {
    /// Velodyne / KITTI binary (`.bin`).
    VelodyneBin,
    /// ASCII PCD (`.pcd`).
    PcdAscii,
    /// ASCII PLY (`.ply`).
    PlyAscii,
}

/// `b` with an ASCII capital letter turned into its small letter.
pub open spec fn ascii_lower(b: u8) -> u8 {
    if 65 <= b <= 90 {
        (b + 32) as u8
    } else {
        b
    }
}

/// `s` with every ASCII capital letter turned into its small letter.
pub open spec fn lower_bytes(s: Seq<u8>) -> Seq<u8> {
    s.map_values(|b: u8| ascii_lower(b))
}

pub open spec fn bin_ext() -> Seq<u8> {
    seq!['b' as u8, 'i' as u8, 'n' as u8]
}

pub open spec fn pcd_ext() -> Seq<u8> {
    seq!['p' as u8, 'c' as u8, 'd' as u8]
}

pub open spec fn ply_ext() -> Seq<u8> {
    seq!['p' as u8, 'l' as u8, 'y' as u8]
}

/// The layout named by a file extension, compared without regard to ASCII case.
pub open spec fn format_for_extension(ext: Seq<u8>) -> Option<PointCloudFormat> {
    let l = lower_bytes(ext);
    if l == bin_ext() {
        Some(PointCloudFormat::VelodyneBin)
    } else if l == pcd_ext() {
        Some(PointCloudFormat::PcdAscii)
    } else if l == ply_ext() {
        Some(PointCloudFormat::PlyAscii)
    } else {
        None
    }
}

/// Lowering the case of an extension first changes nothing: the choice is
/// insensitive to ASCII case.
pub proof fn law_extension_case_insensitive(ext: Seq<u8>)
    ensures
        format_for_extension(lower_bytes(ext)) == format_for_extension(ext),
{
    assert(lower_bytes(lower_bytes(ext)) =~= lower_bytes(ext));
}

/// Lower-casing turns every ASCII capital `A`..`Z` into its small letter, 32
/// above it, and keeps every other byte; the length is kept.
pub proof fn law_lower_bytes_small_letters(s: Seq<u8>, i: int)
    requires
        0 <= i < s.len(),
    ensures
        lower_bytes(s).len() == s.len(),
        'A' as u8 <= s[i] <= 'Z' as u8 ==> lower_bytes(s)[i] == s[i] + 32,
        !('A' as u8 <= s[i] <= 'Z' as u8) ==> lower_bytes(s)[i] == s[i],
{
}

/// `ext` spells `word` (a word of small letters) with any mix of capital and
/// small letters.
pub open spec fn spelt_in_any_case(ext: Seq<u8>, word: Seq<u8>) -> bool {
    &&& ext.len() == word.len()
    &&& forall|i: int| 0 <= i < word.len() ==> (ext[i] == word[i] || ext[i] + 32 == word[i])
}

proof fn lemma_lower_spelt(ext: Seq<u8>, word: Seq<u8>)
    requires
        spelt_in_any_case(ext, word),
        forall|i: int| 0 <= i < word.len() ==> 'a' as u8 <= #[trigger] word[i] <= 'z' as u8,
    ensures
        lower_bytes(ext) == word,
{
    assert(lower_bytes(ext) =~= word);
}

/// Every spelling of `bin`, `pcd` and `ply` in capital or small letters, such
/// as `PLY` or `Pcd`, selects the reader of that extension.
pub proof fn law_extension_any_case(ext: Seq<u8>)
    ensures
        spelt_in_any_case(ext, bin_ext()) ==> format_for_extension(ext) == Some(
            PointCloudFormat::VelodyneBin,
        ),
        spelt_in_any_case(ext, pcd_ext()) ==> format_for_extension(ext) == Some(
            PointCloudFormat::PcdAscii,
        ),
        spelt_in_any_case(ext, ply_ext()) ==> format_for_extension(ext) == Some(
            PointCloudFormat::PlyAscii,
        ),
{
    if spelt_in_any_case(ext, bin_ext()) {
        lemma_lower_spelt(ext, bin_ext());
    }
    if spelt_in_any_case(ext, pcd_ext()) {
        lemma_lower_spelt(ext, pcd_ext());
        assert(pcd_ext() != bin_ext()) by {
            assert(pcd_ext()[0] != bin_ext()[0]);
        }
    }
    if spelt_in_any_case(ext, ply_ext()) {
        lemma_lower_spelt(ext, ply_ext());
        assert(ply_ext() != bin_ext()) by {
            assert(ply_ext()[0] != bin_ext()[0]);
        }
        assert(ply_ext() != pcd_ext()) by {
            assert(ply_ext()[1] != pcd_ext()[1]);
        }
    }
}

/// `s` with every ASCII capital letter turned into its small letter, as `to_ascii_lowercase` does.
pub fn ascii_lowercase(s: &[u8]) -> (r: Vec<u8>)
    ensures
        r@ == lower_bytes(s@),
{
    let mut r: Vec<u8> = Vec::with_capacity(s.len());
    let mut i: usize = 0;
    while i < s.len()
        invariant
            i <= s@.len(),
            r@ == lower_bytes(s@.take(i as int)),
        decreases s@.len() - i,
    {
        let b = s[i];
        let l = if 65 <= b && b <= 90 {
            b + 32
        } else {
            b
        };
        r.push(l);
        assert(s@.take(i + 1) =~= s@.take(i as int).push(b));
        assert(lower_bytes(s@.take(i + 1)) =~= lower_bytes(s@.take(i as int)).push(l));
        i = i + 1;
    }
    assert(s@.take(i as int) =~= s@);
    r
}

fn is_word(s: &Vec<u8>, a: u8, b: u8, c: u8) -> (r: bool)
    ensures
        r == (s@ == seq![a, b, c]),
{
    if s.len() != 3 {
        assert(s@.len() != seq![a, b, c].len());
        return false;
    }
    let r = s[0] == a && s[1] == b && s[2] == c;
    if r {
        assert(s@ =~= seq![a, b, c]);
    } else {
        assert(s@ != seq![a, b, c]) by {
            if s@ == seq![a, b, c] {
                assert(s@[0] == a && s@[1] == b && s@[2] == c);
            }
        }
    }
    r
}

/// The layout for a file whose extension is `ext` (its UTF-8 bytes), or `None`
/// when the extension names none of them.
pub fn point_cloud_format(ext: &[u8]) -> (f: Option<PointCloudFormat>)
    ensures
        f == format_for_extension(ext@),
{
    let l = ascii_lowercase(ext);
    if is_word(&l, 'b' as u8, 'i' as u8, 'n' as u8) {
        Some(PointCloudFormat::VelodyneBin)
    } else if is_word(&l, 'p' as u8, 'c' as u8, 'd' as u8) {
        Some(PointCloudFormat::PcdAscii)
    } else if is_word(&l, 'p' as u8, 'l' as u8, 'y' as u8) {
        Some(PointCloudFormat::PlyAscii)
    } else {
        None
    }
}

} // verus!
