//! The container locator: finds the embedded offset table inside the host
//! executable — by the legacy fixed-position record first, then by the
//! dedicated PE resource — and validates the table's structural header.

use vstd::prelude::*;
use crate::installers::crc32::{crc32_of, spec_crc32};
use crate::installers::reader::{bytes_range, spec_le32};

verus! {

/// The fixed file offset of the legacy setup-loader offset record.
pub const SETUP_LOADER_OFFSET: usize = 0x30;

/// The numeric identifier of the PE resource that carries the offset table.
pub const SETUP_LOADER_RESOURCE: u32 = 11111;

/// The numeric type of raw-data PE resources.
pub const RESOURCE_TYPE_RCDATA: u32 = 10;

/// One entry of the host executable's resource tree, as plain values: its
/// numeric type, its numeric identifier, and where its bytes sit in the
/// file.
#[derive(Clone, Copy, PartialEq, Eq, Structural, Debug)]
pub struct PeResource {
    pub type_id: u32,
    pub id: u32,
    pub offset: u32,
    pub length: u32,
}

/// The validated offset table: where the structural header sits in the
/// host file.
#[derive(Clone, Copy, PartialEq, Eq, Structural, Debug)]
pub struct SetupLoader {
    pub header_offset: u32,
}

/// How locating the offset table can fail.
#[derive(Clone, PartialEq, Eq, Debug)]
pub enum LoaderError {
    /// No offset table at all: the file is not this container format.
    NotInnoFile,
    /// An offset table was found but its signature is not a known one.
    UnknownSignature(Vec<u8>),
    /// A modern offset table failed its own checksum.
    ChecksumMismatch { actual: u32, expected: u32 },
    /// An offset table was found but ends before its declared fields.
    Truncated,
}

/// The mathematical value of a locating failure.
pub enum LoaderErrorS {
    NotInnoFile,
    UnknownSignature(Seq<u8>),
    ChecksumMismatch { actual: u32, expected: u32 },
    Truncated,
}

impl View for LoaderError {
    type V = LoaderErrorS;

    open spec fn view(&self) -> LoaderErrorS {
        match self {
            LoaderError::NotInnoFile => LoaderErrorS::NotInnoFile,
            LoaderError::UnknownSignature(sig) => LoaderErrorS::UnknownSignature(sig@),
            LoaderError::ChecksumMismatch { actual, expected } => LoaderErrorS::ChecksumMismatch {
                actual: *actual,
                expected: *expected,
            },
            LoaderError::Truncated => LoaderErrorS::Truncated,
        }
    }
}

/// The offset-table signature of the oldest loader revision.
pub open spec fn spec_sig_legacy() -> Seq<u8> {
    seq![0x72u8, 0x44u8, 0x6Cu8, 0x50u8, 0x74u8, 0x53u8, 0x30u8, 0x32u8, 0x87u8, 0x65u8, 0x56u8, 0x78u8]
}

/// The offset-table signature of the middle loader revision.
pub open spec fn spec_sig_middle() -> Seq<u8> {
    seq![0x72u8, 0x44u8, 0x6Cu8, 0x50u8, 0x74u8, 0x53u8, 0x30u8, 0x34u8, 0x87u8, 0x65u8, 0x56u8, 0x78u8]
}

/// The offset-table signature of the modern loader revision, whose table
/// carries its own checksum.
pub open spec fn spec_sig_modern() -> Seq<u8> {
    seq![0x72u8, 0x44u8, 0x6Cu8, 0x50u8, 0x74u8, 0x53u8, 0x30u8, 0x37u8, 0x87u8, 0x65u8, 0x56u8, 0x78u8]
}

/// Parses and validates an offset table: a 12-byte signature, the 32-bit
/// header offset, and — for the modern revision — a 32-bit checksum over
/// the 16 bytes before it.
pub open spec fn spec_parse_loader_table(table: Seq<u8>) -> Result<SetupLoader, LoaderErrorS> {
    if table.len() < 12 {
        Err(LoaderErrorS::Truncated)
    } else {
        let sig = table.take(12);
        if sig == spec_sig_legacy() || sig == spec_sig_middle() {
            if table.len() < 16 {
                Err(LoaderErrorS::Truncated)
            } else {
                Ok(
                    SetupLoader {
                        header_offset: spec_le32(table[12], table[13], table[14], table[15]),
                    },
                )
            }
        } else if sig == spec_sig_modern() {
            if table.len() < 20 {
                Err(LoaderErrorS::Truncated)
            } else {
                let expected = spec_le32(table[16], table[17], table[18], table[19]);
                let actual = spec_crc32(table.take(16));
                if actual != expected {
                    Err(LoaderErrorS::ChecksumMismatch { actual, expected })
                } else {
                    Ok(
                        SetupLoader {
                            header_offset: spec_le32(table[12], table[13], table[14], table[15]),
                        },
                    )
                }
            }
        } else {
            Err(LoaderErrorS::UnknownSignature(sig))
        }
    }
}

/// The first resource that is raw data and carries the loader's dedicated
/// identifier, searching in order.
pub open spec fn spec_find_loader_resource(resources: Seq<PeResource>, k: int) -> Option<
    PeResource,
>
    decreases resources.len() - k,
{
    if k < 0 || k >= resources.len() {
        None
    } else if resources[k].type_id == 10 && resources[k].id == 11111 {
        Some(resources[k])
    } else {
        spec_find_loader_resource(resources, k + 1)
    }
}

/// The bytes of the offset table, if either strategy finds one: the legacy
/// record at the fixed offset — valid only when one field is the bitwise
/// complement of its sibling and the contained offset lies inside the file
/// — and otherwise the dedicated PE resource.
pub open spec fn spec_loader_table_bytes(data: Seq<u8>, resources: Seq<PeResource>) -> Option<
    Seq<u8>,
> {
    let legacy = if data.len() >= 0x38 {
        let table_offset = spec_le32(data[0x30], data[0x31], data[0x32], data[0x33]);
        let not_table_offset = spec_le32(data[0x34], data[0x35], data[0x36], data[0x37]);
        if table_offset == (not_table_offset ^ 0xFFFF_FFFFu32) && table_offset <= data.len() {
            Some(data.skip(table_offset as int))
        } else {
            None
        }
    } else {
        None
    };
    match legacy {
        Some(t) => Some(t),
        None => match spec_find_loader_resource(resources, 0) {
            Some(res) => if res.offset + res.length <= data.len() {
                Some(data.subrange(res.offset as int, res.offset + res.length))
            } else {
                None
            },
            None => None,
        },
    }
}

/// Locates and validates the offset table.
pub open spec fn spec_locate_loader(data: Seq<u8>, resources: Seq<PeResource>) -> Result<
    SetupLoader,
    LoaderErrorS,
> {
    match spec_loader_table_bytes(data, resources) {
        None => Err(LoaderErrorS::NotInnoFile),
        Some(table) => spec_parse_loader_table(table),
    }
}

fn sig_bytes(which: u8) -> (r: Vec<u8>)
    requires
        which < 3,
    ensures
        which == 0 ==> r@ == spec_sig_legacy(),
        which == 1 ==> r@ == spec_sig_middle(),
        which == 2 ==> r@ == spec_sig_modern(),
{
    let mut v: Vec<u8> = Vec::new();
    v.push(0x72);
    v.push(0x44);
    v.push(0x6C);
    v.push(0x50);
    v.push(0x74);
    v.push(0x53);
    v.push(0x30);
    if which == 0 {
        v.push(0x32);
    } else if which == 1 {
        v.push(0x34);
    } else {
        v.push(0x37);
    }
    v.push(0x87);
    v.push(0x65);
    v.push(0x56);
    v.push(0x78);
    proof {
        if which == 0 {
            assert(v@ =~= spec_sig_legacy());
        } else if which == 1 {
            assert(v@ =~= spec_sig_middle());
        } else {
            assert(v@ =~= spec_sig_modern());
        }
    }
    v
}

fn bytes_eq(a: &Vec<u8>, b: &Vec<u8>) -> (r: bool)
    ensures
        r == (a@ == b@),
{
    if a.len() != b.len() {
        proof {
            assert(a@.len() != b@.len());
        }
        return false;
    }
    let mut i: usize = 0;
    while i < a.len()
        invariant
            i <= a.len(),
            a@.len() == b@.len(),
            forall|j: int| 0 <= j < i ==> a@[j] == b@[j],
        decreases a.len() - i,
    {
        if a[i] != b[i] {
            return false;
        }
        i = i + 1;
    }
    proof {
        assert(a@ =~= b@);
    }
    true
}

/// Parses and validates an offset table.
pub fn parse_loader_table(table: &Vec<u8>) -> (r: Result<SetupLoader, LoaderError>)
    ensures
        match r {
            Ok(loader) => spec_parse_loader_table(table@) == Ok::<SetupLoader, LoaderErrorS>(
                loader,
            ),
            Err(e) => spec_parse_loader_table(table@) == Err::<SetupLoader, LoaderErrorS>(e@),
        },
{
    if table.len() < 12 {
        return Err(LoaderError::Truncated);
    }
    let mut sig: Vec<u8> = Vec::new();
    let mut i: usize = 0;
    while i < 12
        invariant
            i <= 12,
            table@.len() >= 12,
            sig@ == table@.take(12).take(i as int),
        decreases 12 - i,
    {
        sig.push(table[i]);
        proof {
            assert(sig@ =~= table@.take(12).take(i + 1));
        }
        i = i + 1;
    }
    proof {
        assert(table@.take(12).take(12) =~= table@.take(12));
    }
    let legacy = sig_bytes(0);
    let middle = sig_bytes(1);
    let modern = sig_bytes(2);
    if bytes_eq(&sig, &legacy) || bytes_eq(&sig, &middle) {
        if table.len() < 16 {
            return Err(LoaderError::Truncated);
        }
        let header_offset = le32_at(table, 12);
        Ok(SetupLoader { header_offset })
    } else if bytes_eq(&sig, &modern) {
        if table.len() < 20 {
            return Err(LoaderError::Truncated);
        }
        let expected = le32_at(table, 16);
        let head = match bytes_range_vec(table, 0, 16) {
            Some(h) => h,
            None => {
                return Err(LoaderError::Truncated);
            },
        };
        proof {
            assert(head@ =~= table@.take(16));
        }
        let actual = crc32_of(&head);
        if actual != expected {
            Err(LoaderError::ChecksumMismatch { actual, expected })
        } else {
            let header_offset = le32_at(table, 12);
            Ok(SetupLoader { header_offset })
        }
    } else {
        Err(LoaderError::UnknownSignature(sig))
    }
}

fn le32_at(bytes: &Vec<u8>, at: usize) -> (r: u32)
    requires
        at + 4 <= bytes@.len(),
    ensures
        r == spec_le32(bytes@[at as int], bytes@[at + 1], bytes@[at + 2], bytes@[at + 3]),
{
    let n = bytes.len();
    proof {
        assert(at + 4 <= n);
    }
    bytes[at] as u32 + bytes[at + 1] as u32 * 0x100 + bytes[at + 2] as u32 * 0x1_0000 + bytes[at
        + 3] as u32 * 0x100_0000
}

fn bytes_range_vec(data: &Vec<u8>, start: usize, len: usize) -> (r: Option<Vec<u8>>)
    ensures
        match r {
            Some(v) => start + len <= data@.len() && v@ == data@.subrange(
                start as int,
                start + len,
            ),
            None => start + len > data@.len(),
        },
{
    bytes_range(data.as_slice(), start, len)
}

/// Locates and validates the offset table inside the host file.
pub fn locate_loader(data: &[u8], resources: &Vec<PeResource>) -> (r: Result<
    SetupLoader,
    LoaderError,
>)
    ensures
        match r {
            Ok(loader) => spec_locate_loader(data@, resources@) == Ok::<
                SetupLoader,
                LoaderErrorS,
            >(loader),
            Err(e) => spec_locate_loader(data@, resources@) == Err::<SetupLoader, LoaderErrorS>(
                e@,
            ),
        },
{
    let table: Option<Vec<u8>> = {
        let legacy: Option<Vec<u8>> = if data.len() >= 0x38 {
            let table_offset = le32_slice_at(data, 0x30);
            let not_table_offset = le32_slice_at(data, 0x34);
            if table_offset == (not_table_offset ^ 0xFFFF_FFFFu32) && table_offset as usize
                <= data.len() {
                match bytes_range(data, table_offset as usize, data.len() - table_offset as usize) {
                    Some(t) => {
                        proof {
                            assert(t@ =~= data@.skip(table_offset as int));
                        }
                        Some(t)
                    },
                    None => None,
                }
            } else {
                None
            }
        } else {
            None
        };
        match legacy {
            Some(t) => Some(t),
            None => {
                proof {
                    if data@.len() >= 0x38 {
                        let spec_to = spec_le32(data@[0x30], data@[0x31], data@[0x32], data@[0x33]);
                        let spec_nto = spec_le32(data@[0x34], data@[0x35], data@[0x36], data@[0x37]);
                        assert(!(spec_to == (spec_nto ^ 0xFFFF_FFFFu32) && spec_to <= data@.len()));
                    }
                }
                match find_loader_resource(resources) {
                    Some(res) => {
                        if res.length as usize <= data.len() && res.offset as usize <= data.len()
                            - res.length as usize {
                            match bytes_range(data, res.offset as usize, res.length as usize) {
                                Some(t) => Some(t),
                                None => None,
                            }
                        } else {
                            None
                        }
                    },
                    None => None,
                }
            },
        }
    };
    match table {
        Some(t) => {
            match parse_loader_table(&t) {
                Ok(loader) => Ok(loader),
                Err(e) => Err(e),
            }
        },
        None => Err(LoaderError::NotInnoFile),
    }
}

fn le32_slice_at(data: &[u8], at: usize) -> (r: u32)
    requires
        at + 4 <= data@.len(),
    ensures
        r == spec_le32(data@[at as int], data@[at + 1], data@[at + 2], data@[at + 3]),
{
    let n = data.len();
    proof {
        assert(at + 4 <= n);
    }
    data[at] as u32 + data[at + 1] as u32 * 0x100 + data[at + 2] as u32 * 0x1_0000 + data[at
        + 3] as u32 * 0x100_0000
}

fn find_loader_resource(resources: &Vec<PeResource>) -> (r: Option<PeResource>)
    ensures
        r == spec_find_loader_resource(resources@, 0),
{
    let mut k: usize = 0;
    while k < resources.len()
        invariant
            k <= resources.len(),
            spec_find_loader_resource(resources@, 0) == spec_find_loader_resource(
                resources@,
                k as int,
            ),
        decreases resources.len() - k,
    {
        let res = resources[k];
        if res.type_id == RESOURCE_TYPE_RCDATA && res.id == SETUP_LOADER_RESOURCE {
            return Some(res);
        }
        k = k + 1;
    }
    None
}

} // verus!
