//! The Velodyne / KITTI `.bin` layout: a flat run of little-endian 32-bit
//! floats, four per point (x, y, z, intensity). The reader here cuts the bytes
//! into records and hands back each value's bit pattern.
use vstd::prelude::*;

verus! {

/// The bit patterns of one record's four values.
#[derive(Debug, Clone, Copy, PartialEq, Eq, Structural)]
pub struct PointBits {
    pub x: u32,
    pub y: u32,
    pub z: u32,
    pub intensity: u32,
}

/// Why a byte run is not a sequence of records.
#[derive(Debug, Clone, Copy, PartialEq, Eq, Structural)]
pub enum VelodyneError {
    /// The length is not a whole number of 32-bit values.
    OddByteCount,
    /// The values do not make up a whole number of four-value records.
    IncompleteRecord,
}

/// The 32-bit word whose little-endian bytes are `b0, b1, b2, b3`, as `u32::from_le_bytes` reads them.
pub open spec fn word_le(b0: u8, b1: u8, b2: u8, b3: u8) -> u32 {
    (b0 as u32) | ((b1 as u32) << 8u32) | ((b2 as u32) << 16u32) | ((b3 as u32) << 24u32)
}

/// The word stored at byte offset `i` of `b`.
pub open spec fn word_at(b: Seq<u8>, i: int) -> u32 {
    word_le(b[i], b[i + 1], b[i + 2], b[i + 3])
}

/// The record stored at byte offset `i` of `b`.
pub open spec fn record_at(b: Seq<u8>, i: int) -> PointBits {
    PointBits {
        x: word_at(b, i),
        y: word_at(b, i + 4),
        z: word_at(b, i + 8),
        intensity: word_at(b, i + 12),
    }
}

/// What the bytes `b` hold: an error when they are not a whole number of
/// values, or of records; otherwise the records, in order.
pub open spec fn velodyne_records(b: Seq<u8>) -> Result<Seq<PointBits>, VelodyneError> {
    if b.len() % 4 != 0 {
        Err(VelodyneError::OddByteCount)
    } else if (b.len() / 4) % 4 != 0 {
        Err(VelodyneError::IncompleteRecord)
    } else {
        Ok(Seq::new(b.len() / 16, |k: int| record_at(b, 16 * k)))
    }
}

/// Byte `j` (0 = least significant) of the word `w`.
pub open spec fn word_byte(w: u32, j: int) -> u8 {
    if j == 0 {
        (w & 0xff) as u8
    } else if j == 1 {
        ((w >> 8u32) & 0xff) as u8
    } else if j == 2 {
        ((w >> 16u32) & 0xff) as u8
    } else {
        ((w >> 24u32) & 0xff) as u8
    }
}

/// Value `j` of a record, in file order.
pub open spec fn record_word(r: PointBits, j: int) -> u32 {
    if j == 0 {
        r.x
    } else if j == 1 {
        r.y
    } else if j == 2 {
        r.z
    } else {
        r.intensity
    }
}

/// The bytes that a writer of the layout produces for `recs`.
pub open spec fn encode_records(recs: Seq<PointBits>) -> Seq<u8> {
    Seq::new(
        recs.len() * 16,
        |i: int| word_byte(record_word(recs[i / 16], (i % 16) / 4), i % 4),
    )
}

proof fn lemma_word_bytes(w: u32)
    ensures
        word_le(word_byte(w, 0), word_byte(w, 1), word_byte(w, 2), word_byte(w, 3)) == w,
{
    assert(((w & 0xff) as u8 as u32) | ((((w >> 8u32) & 0xff) as u8 as u32) << 8u32) | ((((w
        >> 16u32) & 0xff) as u8 as u32) << 16u32) | ((((w >> 24u32) & 0xff) as u8 as u32)
        << 24u32) == w) by (bit_vector);
}

proof fn lemma_bytes_word(b0: u8, b1: u8, b2: u8, b3: u8)
    ensures
        word_byte(word_le(b0, b1, b2, b3), 0) == b0,
        word_byte(word_le(b0, b1, b2, b3), 1) == b1,
        word_byte(word_le(b0, b1, b2, b3), 2) == b2,
        word_byte(word_le(b0, b1, b2, b3), 3) == b3,
{
    let w = word_le(b0, b1, b2, b3);
    assert(w == (b0 as u32) | ((b1 as u32) << 8u32) | ((b2 as u32) << 16u32) | ((b3 as u32)
        << 24u32));
    assert(((((b0 as u32) | ((b1 as u32) << 8u32) | ((b2 as u32) << 16u32) | ((b3 as u32)
        << 24u32)) & 0xff) as u8) == b0) by (bit_vector);
    assert((((((b0 as u32) | ((b1 as u32) << 8u32) | ((b2 as u32) << 16u32) | ((b3 as u32)
        << 24u32)) >> 8u32) & 0xff) as u8) == b1) by (bit_vector);
    assert((((((b0 as u32) | ((b1 as u32) << 8u32) | ((b2 as u32) << 16u32) | ((b3 as u32)
        << 24u32)) >> 16u32) & 0xff) as u8) == b2) by (bit_vector);
    assert((((((b0 as u32) | ((b1 as u32) << 8u32) | ((b2 as u32) << 16u32) | ((b3 as u32)
        << 24u32)) >> 24u32) & 0xff) as u8) == b3) by (bit_vector);
}

proof fn lemma_index_split(k: int, j: int)
    requires
        0 <= k,
        0 <= j < 16,
    ensures
        (16 * k + j) / 16 == k,
        (16 * k + j) % 16 == j,
        (16 * k + j) % 4 == j % 4,
{
    assert((16 * k + j) / 16 == k) by (nonlinear_arith)
        requires
            0 <= k,
            0 <= j < 16,
    ;
    assert((16 * k + j) % 16 == j) by (nonlinear_arith)
        requires
            0 <= k,
            0 <= j < 16,
    ;
    assert((16 * k + j) % 4 == j % 4) by (nonlinear_arith)
        requires
            0 <= k,
            0 <= j < 16,
    ;
}

/// Decoding what a writer produced gives back the records it was given.
pub proof fn law_decode_encode(recs: Seq<PointBits>)
    ensures
        velodyne_records(encode_records(recs)) == Ok::<Seq<PointBits>, VelodyneError>(recs),
{
    let b = encode_records(recs);
    let n = recs.len() as int;
    assert(b.len() == n * 16);
    assert((n * 16) % 4 == 0 && ((n * 16) / 4) % 4 == 0 && (n * 16) / 16 == n) by (
    nonlinear_arith)
        requires
            n >= 0,
    ;
    let decoded = Seq::new(b.len() / 16, |k: int| record_at(b, 16 * k));
    assert forall|k: int| 0 <= k < n implies decoded[k] == recs[k] by {
        assert forall|i: int| 16 * k <= i < 16 * k + 16 implies #[trigger] b[i] == word_byte(
            record_word(recs[k], (i - 16 * k) / 4),
            (i - 16 * k) % 4,
        ) by {
            lemma_index_split(k, i - 16 * k);
            assert(i < n * 16) by (nonlinear_arith)
                requires
                    0 <= k < n,
                    i < 16 * k + 16,
            ;
        }
        let r = recs[k];
        lemma_word_bytes(r.x);
        lemma_word_bytes(r.y);
        lemma_word_bytes(r.z);
        lemma_word_bytes(r.intensity);
        assert(b[16 * k + 0] == word_byte(r.x, 0));
        assert(b[16 * k + 5] == word_byte(r.y, 1));
        assert(b[16 * k + 10] == word_byte(r.z, 2));
        assert(b[16 * k + 15] == word_byte(r.intensity, 3));
    }
    assert(decoded =~= recs);
}

/// Whatever decodes is exactly what a writer produces for the decoded records.
pub proof fn law_encode_decode(b: Seq<u8>)
    requires
        velodyne_records(b) is Ok,
    ensures
        encode_records(velodyne_records(b)->Ok_0) == b,
{
    let recs = velodyne_records(b)->Ok_0;
    let e = encode_records(recs);
    let n = b.len() / 16;
    assert(b.len() == n * 16) by (nonlinear_arith)
        requires
            b.len() % 4 == 0,
            (b.len() / 4) % 4 == 0,
            n == b.len() / 16,
    ;
    assert forall|i: int| 0 <= i < b.len() implies e[i] == b[i] by {
        let k = i / 16;
        let j = i % 16;
        assert(i == 16 * k + j && 0 <= j < 16 && 0 <= k < n) by (nonlinear_arith)
            requires
                0 <= i < n * 16,
                k == i / 16,
                j == i % 16,
        ;
        lemma_index_split(k, j);
        let base = 16 * k + 4 * (j / 4);
        lemma_bytes_word(b[base], b[base + 1], b[base + 2], b[base + 3]);
        assert(recs[k] == record_at(b, 16 * k));
        assert(j / 4 == 0 || j / 4 == 1 || j / 4 == 2 || j / 4 == 3);
        assert(i == base + j % 4);
    }
    assert(e =~= b);
}

/// The records that the bytes `b` of a `.bin` file hold, as bit patterns.
pub fn decode_velodyne(b: &[u8]) -> (r: Result<Vec<PointBits>, VelodyneError>)
    ensures
        match r {
            Ok(v) => velodyne_records(b@) == Ok::<Seq<PointBits>, VelodyneError>(v@),
            Err(e) => velodyne_records(b@) == Err::<Seq<PointBits>, VelodyneError>(e),
        },
{
    let len = b.len();
    if len % 4 != 0 {
        return Err(VelodyneError::OddByteCount);
    }
    if (len / 4) % 4 != 0 {
        return Err(VelodyneError::IncompleteRecord);
    }
    let count = len / 16;
    assert(count * 16 == len);
    let mut out: Vec<PointBits> = Vec::with_capacity(count);
    let mut k: usize = 0;
    while k < count
        invariant
            count * 16 == len,
            len == b@.len(),
            k <= count,
            out@.len() == k,
            forall|m: int| 0 <= m < k ==> out@[m] == record_at(b@, 16 * m),
        decreases count - k,
    {
        let i = 16 * k;
        let rec = PointBits {
            x: (b[i] as u32) | ((b[i + 1] as u32) << 8u32) | ((b[i + 2] as u32) << 16u32) | ((b[i
                + 3] as u32) << 24u32),
            y: (b[i + 4] as u32) | ((b[i + 5] as u32) << 8u32) | ((b[i + 6] as u32) << 16u32) | ((
            b[i + 7] as u32) << 24u32),
            z: (b[i + 8] as u32) | ((b[i + 9] as u32) << 8u32) | ((b[i + 10] as u32) << 16u32) | ((
            b[i + 11] as u32) << 24u32),
            intensity: (b[i + 12] as u32) | ((b[i + 13] as u32) << 8u32) | ((b[i + 14] as u32)
                << 16u32) | ((b[i + 15] as u32) << 24u32),
        };
        out.push(rec);
        k = k + 1;
    }
    assert(out@ =~= Seq::new(len as nat / 16, |m: int| record_at(b@, 16 * m)));
    Ok(out)
}

} // verus!
