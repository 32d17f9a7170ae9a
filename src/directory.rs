//! What the directory frames say about the saves: allocation state and region information,
//! and the checked readers for runs of directory, bad-frame and plain frames.
use vstd::prelude::*;
use vstd::utf8::{decode_utf8, valid_utf8};

use crate::error::MCError;
use crate::frames::{BrokenFrame, DirectoryFrame, Frame};
use crate::record::{frames_valid, load_checked, records_bytes, whole_frames};

verus! {

/// `core::str::Utf8Error`, carried opaque in `MCError::Utf8Error`.
#[verifier::external_type_specification]
#[verifier::external_body]
pub struct ExUtf8Error(core::str::Utf8Error);

/// Relies on `core::str::from_utf8`: it succeeds exactly on valid UTF-8, and the text it
/// returns is those bytes decoded.
pub assume_specification<'a>[ core::str::from_utf8 ](v: &'a [u8]) -> (r: Result<
    &'a str,
    core::str::Utf8Error,
>)
    ensures
        r is Ok <==> valid_utf8(v@),
        r matches Ok(s) ==> s@ == decode_utf8(v@),
;

/// Allocation state of a directory slot.
#[derive(Clone, Copy, Debug, PartialEq, Eq)]
pub enum BAState {
    AllocFirst,
    AllocMid,
    AllocLast,
    Free,
    FreeFirst,
    FreeMid,
    FreeLast,
    UNKNOWN,
}

/// Region a save was made for.
#[derive(Clone, Copy, Debug, PartialEq, Eq)]
pub enum Region {
    Japan,
    America,
    Europe,
    UNKNOWN,
}

/// Who published the game a save belongs to.
#[derive(Clone, Copy, Debug, PartialEq, Eq)]
pub enum License {
    Sony,
    Licensed,
    UNKNOWN,
}

/// Region, license and product id, read from a directory slot's file name.
#[derive(Clone, Debug, PartialEq, Eq)]
pub struct RegionInfo {
    pub region: Region,
    pub license: License,
    pub name: String,
}

/// The allocation state that a raw state word stands for.
pub open spec fn alloc_state_of(state: u32) -> BAState {
    if state == 0x51 {
        BAState::AllocFirst
    } else if state == 0x52 {
        BAState::AllocMid
    } else if state == 0x53 {
        BAState::AllocLast
    } else if state == 0xa0 {
        BAState::Free
    } else if state == 0xa1 {
        BAState::FreeFirst
    } else if state == 0xa2 {
        BAState::FreeMid
    } else if state == 0xa3 {
        BAState::FreeLast
    } else {
        BAState::UNKNOWN
    }
}

/// The region that a file name's region letter stands for.
pub open spec fn region_of(b: u8) -> Region {
    if b == 0x49 {
        Region::Japan
    } else if b == 0x41 {
        Region::America
    } else if b == 0x45 {
        Region::Europe
    } else {
        Region::UNKNOWN
    }
}

/// The license that a file name's license letter stands for.
pub open spec fn license_of(b: u8) -> License {
    if b == 0x43 {
        License::Sony
    } else if b == 0x4c {
        License::Licensed
    } else {
        License::UNKNOWN
    }
}

impl DirectoryFrame {
    /// Reads `n` directory frames from the start of `input`, checking each checksum; a frame
    /// cut short by the end of `input` is an error.
    pub fn load(input: &[u8], n: usize) -> (r: Result<Vec<Self>, MCError>)
        ensures
            r is Ok <==> 128 * n <= input@.len() && frames_valid(input@, 0, n as int),
            r matches Ok(v) ==> v@.len() == n && records_bytes(v@) == input@.subrange(0, 128 * n),
            r matches Err(e) ==> if frames_valid(
                input@,
                0,
                whole_frames(input@.len() as int, n as int),
            ) {
                e is Truncated
            } else {
                e is BadChecksum
            },
    {
        load_checked(input, n)
    }

    /// The slot's allocation state.
    pub fn get_alloc_state(&self) -> (r: BAState)
        ensures
            r == alloc_state_of(self.state),
    {
        match self.state {
            0x51 => BAState::AllocFirst,
            0x52 => BAState::AllocMid,
            0x53 => BAState::AllocLast,
            0xa0 => BAState::Free,
            0xa1 => BAState::FreeFirst,
            0xa2 => BAState::FreeMid,
            0xa3 => BAState::FreeLast,
            _ => BAState::UNKNOWN,
        }
    }

    /// Region (file name byte 1), license (byte 3) and product id (bytes 12 to 20, as UTF-8).
    pub fn get_region_info(&self) -> (r: Result<RegionInfo, MCError>)
        ensures
            r is Ok <==> valid_utf8(self.filename@.subrange(12, 21)),
            r matches Ok(info) ==> {
                &&& info.region == region_of(self.filename[1])
                &&& info.license == license_of(self.filename[3])
                &&& info.name@ == decode_utf8(self.filename@.subrange(12, 21))
            },
            r matches Err(e) ==> e is Utf8Error,
    {
        let region = match self.filename[1] {
            0x49 => Region::Japan,
            0x41 => Region::America,
            0x45 => Region::Europe,
            _ => Region::UNKNOWN,
        };
        let license = match self.filename[3] {
            0x43 => License::Sony,
            0x4c => License::Licensed,
            _ => License::UNKNOWN,
        };
        let id = &self.filename.as_slice()[12..21];
        match core::str::from_utf8(id) {
            Ok(s) => Ok(RegionInfo { region, license, name: s.to_owned() }),
            Err(e) => Err(MCError::Utf8Error(e)),
        }
    }
}

impl BrokenFrame {
    /// Reads `n` bad-frame entries from the start of `input`, checking each checksum; a frame
    /// cut short by the end of `input` is an error.
    pub fn load(input: &[u8], n: usize) -> (r: Result<Vec<Self>, MCError>)
        ensures
            r is Ok <==> 128 * n <= input@.len() && frames_valid(input@, 0, n as int),
            r matches Ok(v) ==> v@.len() == n && records_bytes(v@) == input@.subrange(0, 128 * n),
            r matches Err(e) ==> if frames_valid(
                input@,
                0,
                whole_frames(input@.len() as int, n as int),
            ) {
                e is Truncated
            } else {
                e is BadChecksum
            },
    {
        load_checked(input, n)
    }
}

impl Frame {
    /// `load` will read in `n` x `Frame`s worth of data and return a `Result` of a `Vec<Frame>`
    /// and will also validate the checksum of the frames. A frame cut short by the end of
    /// `input` is an error.
    pub fn load(input: &[u8], n: usize) -> (r: Result<Vec<Self>, MCError>)
        ensures
            r is Ok <==> 128 * n <= input@.len() && frames_valid(input@, 0, n as int),
            r matches Ok(v) ==> v@.len() == n && records_bytes(v@) == input@.subrange(0, 128 * n),
            r matches Err(e) ==> if frames_valid(
                input@,
                0,
                whole_frames(input@.len() as int, n as int),
            ) {
                e is Truncated
            } else {
                e is BadChecksum
            },
    {
        load_checked(input, n)
    }
}

} // verus!
