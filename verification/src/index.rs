//! The tile index of one overview level: for every tile, the file offset of
//! its compressed bytes and their length.
use vstd::prelude::*;
use crate::le::{le32, le64, read_u32, read_u64};
use crate::levels::OverviewLevel;
use crate::names::{MapKind, MapName};
use crate::tiff::TiffType;

verus! {

/// The words of a tile index table: bytes read from the file, or the one or
/// two words stored inline in the directory entry.
#[derive(Debug)]
pub enum Memory {
    Mapping(Vec<u8>),
    Inline4([u32; 2]),
    Inline8([u64; 1]),
}

impl Memory {
    /// The table read as 64-bit little-endian words.
    pub open spec fn words64(self) -> Seq<u64> {
        match self {
            Memory::Mapping(b) => Seq::new(b@.len() / 8, |i: int| le64(b@, 8 * i) as u64),
            Memory::Inline8(d) => seq![d[0]],
            Memory::Inline4(_) => Seq::empty(),
        }
    }

    /// The table read as 32-bit little-endian words.
    pub open spec fn words32(self) -> Seq<u32> {
        match self {
            Memory::Mapping(b) => Seq::new(b@.len() / 4, |i: int| le32(b@, 4 * i) as u32),
            Memory::Inline4(d) => seq![d[0], d[1]],
            Memory::Inline8(_) => Seq::empty(),
        }
    }

    /// Whether the table can be read as 64-bit words: a byte table of whole
    /// words, or an inline Long8 value.
    pub open spec fn has_words64(self) -> bool {
        match self {
            Memory::Mapping(b) => b@.len() % 8 == 0,
            Memory::Inline8(_) => true,
            Memory::Inline4(_) => false,
        }
    }

    /// Whether the table can be read as 32-bit words.
    pub open spec fn has_words32(self) -> bool {
        match self {
            Memory::Mapping(b) => b@.len() % 4 == 0,
            Memory::Inline4(_) => true,
            Memory::Inline8(_) => false,
        }
    }

    /// The table as 64-bit words.
    pub fn as_u64_arr(&self) -> (r: Vec<u64>)
        requires
            self.has_words64(),
        ensures
            r@ == self.words64(),
    {
        match self {
            Memory::Mapping(b) => {
                let len = b.len();
                let n = len / 8;
                let mut out: Vec<u64> = Vec::new();
                let mut i: usize = 0;
                while i < n
                    invariant
                        len == b@.len(),
                        n == len / 8,
                        i <= n,
                        out@.len() == i,
                        forall|j: int| 0 <= j < i ==> #[trigger] out@[j] == le64(b@, 8 * j) as u64,
                    decreases n - i,
                {
                    out.push(read_u64(b.as_slice(), 8 * i));
                    i = i + 1;
                }
                assert(out@ =~= self.words64());
                out
            },
            Memory::Inline8(d) => {
                let mut out: Vec<u64> = Vec::new();
                out.push(d[0]);
                assert(out@ =~= self.words64());
                out
            },
            Memory::Inline4(_) => Vec::new(),
        }
    }

    /// The table as 32-bit words.
    pub fn as_u32_arr(&self) -> (r: Vec<u32>)
        requires
            self.has_words32(),
        ensures
            r@ == self.words32(),
    {
        match self {
            Memory::Mapping(b) => {
                let len = b.len();
                let n = len / 4;
                let mut out: Vec<u32> = Vec::new();
                let mut i: usize = 0;
                while i < n
                    invariant
                        len == b@.len(),
                        n == len / 4,
                        i <= n,
                        out@.len() == i,
                        forall|j: int| 0 <= j < i ==> #[trigger] out@[j] == le32(b@, 4 * j) as u32,
                    decreases n - i,
                {
                    out.push(read_u32(b.as_slice(), 4 * i));
                    i = i + 1;
                }
                assert(out@ =~= self.words32());
                out
            },
            Memory::Inline4(d) => {
                let mut out: Vec<u32> = Vec::new();
                out.push(d[0]);
                out.push(d[1]);
                assert(out@ =~= self.words32());
                out
            },
            Memory::Inline8(_) => Vec::new(),
        }
    }

    /// Word `i` of the table read as 64-bit words, if there is one.
    pub fn u64_at(&self, i: usize) -> (r: Option<u64>)
        requires
            self.has_words64(),
        ensures
            r == (if i < self.words64().len() { Some(self.words64()[i as int]) } else { None::<u64> }),
    {
        match self {
            Memory::Mapping(b) => {
                if i < b.len() / 8 {
                    Some(read_u64(b.as_slice(), 8 * i))
                } else {
                    None
                }
            },
            Memory::Inline8(d) => if i == 0 { Some(d[0]) } else { None },
            Memory::Inline4(_) => None,
        }
    }

    /// Word `i` of the table read as 32-bit words, if there is one.
    pub fn u32_at(&self, i: usize) -> (r: Option<u32>)
        requires
            self.has_words32(),
        ensures
            r == (if i < self.words32().len() { Some(self.words32()[i as int]) } else { None::<u32> }),
    {
        match self {
            Memory::Mapping(b) => {
                if i < b.len() / 4 {
                    Some(read_u32(b.as_slice(), 4 * i))
                } else {
                    None
                }
            },
            Memory::Inline4(d) => if i < 2 { Some(d[i]) } else { None },
            Memory::Inline8(_) => None,
        }
    }
}

/// The tile index of one overview level of one data set.
#[derive(Debug)]
pub struct GeoTiffMapIndex {
    pub kind: MapKind,
    pub level: OverviewLevel,
    pub offsets: Memory,
    pub offsets_type: TiffType,
    pub nbytes: Memory,
    pub nbytes_type: TiffType,
}

impl GeoTiffMapIndex {
    /// Whether the index can locate `name`: the name is of this data set and
    /// level, offsets are Long8 words with an entry for the tile, and byte
    /// counts are Long8 words (that fit a `usize`) or Long words with an
    /// entry for the tile.
    pub open spec fn locates(self, name: MapName) -> bool {
        let i = name.spec_position().spec_offset() as int;
        &&& name.spec_kind() == self.kind
        &&& name.spec_level() == self.level
        &&& self.offsets_type == TiffType::Long8
        &&& self.offsets.has_words64()
        &&& i < self.offsets.words64().len()
        &&& match self.nbytes_type {
            TiffType::Long8 => self.nbytes.has_words64() && i < self.nbytes.words64().len()
                && self.nbytes.words64()[i] <= usize::MAX,
            TiffType::Long => self.nbytes.has_words32() && i < self.nbytes.words32().len(),
            _ => false,
        }
    }

    /// Tests `locates`.
    pub fn can_locate(&self, name: &MapName) -> (r: bool)
        ensures
            r == self.locates(*name),
    {
        let i = name.position().index();
        if name.kind() != self.kind || name.level() != self.level || self.offsets_type != TiffType::Long8 {
            return false;
        }
        let offsets_ok = match &self.offsets {
            Memory::Mapping(b) => b.len() % 8 == 0 && i < b.len() / 8,
            Memory::Inline8(_) => i < 1,
            Memory::Inline4(_) => false,
        };
        if !offsets_ok {
            return false;
        }
        match self.nbytes_type {
            TiffType::Long8 => match &self.nbytes {
                Memory::Mapping(b) => b.len() % 8 == 0 && i < b.len() / 8 && read_u64(b.as_slice(), 8 * i) <= usize::MAX as u64,
                Memory::Inline8(d) => i < 1 && d[0] <= usize::MAX as u64,
                Memory::Inline4(_) => false,
            },
            TiffType::Long => match &self.nbytes {
                Memory::Mapping(b) => b.len() % 4 == 0 && i < b.len() / 4,
                Memory::Inline4(_) => i < 2,
                Memory::Inline8(_) => false,
            },
            _ => false,
        }
    }

    /// The file offset and byte length of the tile `name`.
    pub fn at_offset(&self, name: &MapName) -> (r: (u64, usize))
        requires
            self.locates(*name),
        ensures
            ({
                let i = name.spec_position().spec_offset() as int;
                &&& r.0 == self.offsets.words64()[i]
                &&& r.1 == match self.nbytes_type {
                    TiffType::Long8 => self.nbytes.words64()[i] as usize,
                    _ => self.nbytes.words32()[i] as usize,
                }
            }),
    {
        let idx = name.position().index();
        let base = match self.offsets.u64_at(idx) {
            Some(v) => v,
            None => 0,
        };
        let size = match self.nbytes_type {
            TiffType::Long8 => {
                let val = match self.nbytes.u64_at(idx) {
                    Some(v) => v,
                    None => 0,
                };
                val as usize
            },
            _ => {
                let val = match self.nbytes.u32_at(idx) {
                    Some(v) => v,
                    None => 0,
                };
                val as usize
            },
        };
        (base, size)
    }
}

/// With offsets and byte counts read from the file as byte tables, the
/// index locates a tile of its own kind and level exactly when both tables
/// hold a whole word at the tile's position: eight bytes for the offset,
/// and four bytes (Long) or eight bytes (Long8, fitting a `usize`) for the
/// byte count.
pub proof fn byte_tables_locate_every_entry(index: GeoTiffMapIndex, name: MapName)
    requires
        name.spec_kind() == index.kind,
        name.spec_level() == index.level,
        index.offsets_type == TiffType::Long8,
        index.offsets is Mapping,
        index.offsets->Mapping_0@.len() % 8 == 0,
        index.nbytes is Mapping,
    ensures
        ({
            let i = name.spec_position().spec_offset() as int;
            let offs = index.offsets->Mapping_0@;
            let counts = index.nbytes->Mapping_0@;
            &&& index.nbytes_type == TiffType::Long && counts.len() % 4 == 0 ==> (index.locates(name)
                <==> (8 * i + 8 <= offs.len() && 4 * i + 4 <= counts.len()))
            &&& index.nbytes_type == TiffType::Long8 && counts.len() % 8 == 0 ==> (index.locates(name)
                <==> (8 * i + 8 <= offs.len() && 8 * i + 8 <= counts.len() && le64(counts, 8 * i) <= usize::MAX))
            &&& index.nbytes_type != TiffType::Long && index.nbytes_type != TiffType::Long8 ==> !index.locates(name)
        }),
{
    let i = name.spec_position().spec_offset() as int;
    let offs = index.offsets->Mapping_0@;
    let counts = index.nbytes->Mapping_0@;
    assert((i < offs.len() / 8) <==> (8 * i + 8 <= offs.len()));
    assert((i < counts.len() / 4) <==> (4 * i + 4 <= counts.len()));
    assert((i < counts.len() / 8) <==> (8 * i + 8 <= counts.len()));
}

} // verus!
