//! Reader for the ART tile-metadata catalog format of the Build engine.
//!
//! A catalog is an 8-byte header (little-endian `u32` format version, then
//! a reserved `u32` that is skipped), an 8-byte range header (`first_id`
//! and `last_id` as little-endian `u32`), then `count = last_id - first_id
//! + 1` little-endian `i16` tile widths followed by `count` little-endian
//! `i16` tile heights; record `k`'s dimensions pair the two runs
//! positionally.

use crate::lebytes::{le32_at, le_i16_at, read_i16_at, read_u32_at};
use vstd::prelude::*;

verus! {

/// The single catalog format version this reader supports.
pub open spec fn supported_version() -> u32 {
    1
}

/// How an ART operation failed.
///
/// `UnsupportedVersion`, `InvalidTileRange`: the source is structurally
/// invalid. The `Truncated` variants: the source ended before a fixed-size
/// field that the format requires.
#[derive(Clone, Copy, Debug, PartialEq, Eq, Structural)]
pub enum ArtError {
    /// The source ends before the 4-byte version field is complete.
    TruncatedHeader,
    /// The version field holds the given value instead of the supported one.
    UnsupportedVersion { found: u32 },
    /// The source ends before the 8-byte range header is complete.
    TruncatedRange,
    /// The range header declares `last_id < first_id`.
    InvalidTileRange,
    /// The source ends before the declared width and height runs do.
    TruncatedRecord,
}

impl ArtError {
    /// A single-line diagnostic cause for the failure.
    pub fn message(&self) -> (r: &'static str)
        ensures
            self is TruncatedHeader ==> r@ == "truncated header"@,
            self is UnsupportedVersion ==> r@ == "unsupported version, expected 1"@,
            self is TruncatedRange ==> r@ == "truncated range header"@,
            self is InvalidTileRange ==> r@ == "invalid tile range"@,
            self is TruncatedRecord ==> r@ == "truncated tile record"@,
    {
        match self {
            ArtError::TruncatedHeader => "truncated header",
            ArtError::UnsupportedVersion { .. } => "unsupported version, expected 1",
            ArtError::TruncatedRange => "truncated range header",
            ArtError::InvalidTileRange => "invalid tile range",
            ArtError::TruncatedRecord => "truncated tile record",
        }
    }
}

/// The first tile id a catalog declares.
pub open spec fn first_id(s: Seq<u8>) -> u32
    recommends
        s.len() >= 16,
{
    le32_at(s, 8)
}

/// The last tile id a catalog declares.
pub open spec fn last_id(s: Seq<u8>) -> u32
    recommends
        s.len() >= 16,
{
    le32_at(s, 12)
}

/// How many tile records a catalog with a valid range declares.
pub open spec fn tile_count(s: Seq<u8>) -> int
    recommends
        s.len() >= 16,
        first_id(s) <= last_id(s),
{
    last_id(s) - first_id(s) + 1
}

/// The declared width of tile record `k`: the `k`-th entry of the width
/// run that starts right after the range header.
pub open spec fn tile_width_at(s: Seq<u8>, k: int) -> i16
    recommends
        s.len() >= 16,
        first_id(s) <= last_id(s),
        0 <= k < tile_count(s),
        16 + 4 * tile_count(s) <= s.len(),
{
    le_i16_at(s, 16 + 2 * k)
}

/// The declared height of tile record `k`: the `k`-th entry of the height
/// run that starts right after the whole width run.
pub open spec fn tile_height_at(s: Seq<u8>, k: int) -> i16
    recommends
        s.len() >= 16,
        first_id(s) <= last_id(s),
        0 <= k < tile_count(s),
        16 + 4 * tile_count(s) <= s.len(),
{
    le_i16_at(s, 16 + 2 * tile_count(s) + 2 * k)
}

/// One decoded tile record of a catalog.
#[derive(Clone, Copy, Debug, PartialEq, Eq, Structural)]
pub struct ArtTile {
    /// The tile's numeric id: `first_id` plus the record's position.
    pub number: u32,
    /// The tile's declared width; kept verbatim, zero or negative included.
    pub width: i16,
    /// The tile's declared height; kept verbatim, zero or negative included.
    pub height: i16,
}

/// `t` is tile record `k` of the catalog `s`.
pub open spec fn tile_matches(s: Seq<u8>, k: int, t: ArtTile) -> bool {
    &&& t.number == first_id(s) + k
    &&& t.width == tile_width_at(s, k)
    &&& t.height == tile_height_at(s, k)
}

/// Reader over the bytes of one ART catalog.
#[derive(Debug)]
pub struct ArtFileReader {
    /// The catalog's bytes.
    pub data: Vec<u8>,
}

impl ArtFileReader {
    /// The catalog's bytes, as the model every contract speaks of.
    pub open spec fn src(&self) -> Seq<u8> {
        self.data@
    }

    /// Validates the catalog's version field of `data`; the reserved field
    /// after it and the range header are not read.
    ///
    /// Fails with `TruncatedHeader` if the source is shorter than the
    /// 4-byte version field, and with `UnsupportedVersion` if that field
    /// holds anything but the supported version.
    pub fn new(data: Vec<u8>) -> (r: Result<ArtFileReader, ArtError>)
        ensures
            data@.len() < 4 ==> r == Err::<ArtFileReader, ArtError>(ArtError::TruncatedHeader),
            data@.len() >= 4 && le32_at(data@, 0) != supported_version() ==> r == Err::<
                ArtFileReader,
                ArtError,
            >(ArtError::UnsupportedVersion { found: le32_at(data@, 0) }),
            data@.len() >= 4 && le32_at(data@, 0) == supported_version() ==> (r matches Ok(a)
                && a.src() == data@),
    {
        if data.len() < 4 {
            return Err(ArtError::TruncatedHeader);
        }
        let version = read_u32_at(&data, 0);
        if version != 1 {
            return Err(ArtError::UnsupportedVersion { found: version });
        }
        Ok(ArtFileReader { data })
    }

    /// Reads the range header and both dimension runs afresh and returns
    /// the tile records in id order: record `k` carries id `first_id + k`
    /// and pairs the `k`-th width with the `k`-th height.
    ///
    /// Fails with `TruncatedRange` if the source ends before the range
    /// header, with `InvalidTileRange` if `last_id < first_id` (before any
    /// record is read), and with `TruncatedRecord` if the source ends
    /// before the two declared runs; no partial sequence is returned.
    pub fn read_tiles(&self) -> (r: Result<Vec<ArtTile>, ArtError>)
        ensures
            self.src().len() < 16 ==> r == Err::<Vec<ArtTile>, ArtError>(ArtError::TruncatedRange),
            self.src().len() >= 16 && last_id(self.src()) < first_id(self.src()) ==> r == Err::<
                Vec<ArtTile>,
                ArtError,
            >(ArtError::InvalidTileRange),
            self.src().len() >= 16 && last_id(self.src()) >= first_id(self.src()) && self.src().len()
                < 16 + 4 * tile_count(self.src()) ==> r == Err::<Vec<ArtTile>, ArtError>(
                ArtError::TruncatedRecord,
            ),
            self.src().len() >= 16 && last_id(self.src()) >= first_id(self.src()) && self.src().len()
                >= 16 + 4 * tile_count(self.src()) ==> (r matches Ok(v) && v@.len() == tile_count(
                self.src(),
            ) && (forall|k: int| 0 <= k < tile_count(self.src()) ==> tile_matches(
                self.src(),
                k,
                #[trigger] v@[k],
            ))),
    {
        let ghost s = self.src();
        let len_us: usize = self.data.len();
        let len: u64 = len_us as u64;
        if len_us < 16 {
            return Err(ArtError::TruncatedRange);
        }
        let first = read_u32_at(&self.data, 8);
        let last = read_u32_at(&self.data, 12);
        if last < first {
            return Err(ArtError::InvalidTileRange);
        }
        let count: u64 = (last - first) as u64 + 1;
        if len < 16 || (len - 16) / 4 < count {
            proof {
                assert((len - 16) / 4 < count ==> len < 16 + 4 * count);
            }
            return Err(ArtError::TruncatedRecord);
        }
        let mut tiles: Vec<ArtTile> = Vec::new();
        let mut k: u64 = 0;
        while k < count
            invariant
                k <= count,
                s == self.src(),
                len_us as int == s.len(),
                s.len() >= 16,
                first == first_id(s),
                last == last_id(s),
                first <= last,
                count == tile_count(s),
                16 + 4 * count <= s.len(),
                tiles@.len() == k,
                forall|j: int| 0 <= j < k ==> tile_matches(s, j, #[trigger] tiles@[j]),
            decreases count - k,
        {
            let w_off: u64 = 16 + 2 * k;
            let h_off: u64 = 16 + 2 * count + 2 * k;
            let width = read_i16_at(&self.data, w_off as usize);
            let height = read_i16_at(&self.data, h_off as usize);
            let number: u32 = first + (k as u32);
            tiles.push(ArtTile { number, width, height });
            k = k + 1;
        }
        Ok(tiles)
    }
}

} // verus!
