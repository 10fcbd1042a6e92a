//! The configuration record kept in flash, and its CRC-32 seal.
use crate::checksum::{crc32_cksum, crc32_cksum_of};
use vstd::bytes::{
    lemma_auto_spec_u32_to_from_le_bytes, spec_u32_from_le_bytes, spec_u32_to_le_bytes,
    u32_from_le_bytes, u32_to_le_bytes,
};
use vstd::prelude::*;
use vstd::slice::slice_subrange;

verus! {

/// Bytes of the record in flash: boot count (4), wanted ssid (32), ssid
/// password (64), CRC-32 (4), integers little-endian as `repr(C)` lays them
/// out on the target.
pub const RECORD_LEN: usize = 104;

/// The persisted configuration.
#[derive(Clone, Copy, Debug, PartialEq, Eq)]
pub struct Data {
    pub boot_count: u32,
    /// max ssid length
    pub wanted_ssid: [u8; 32],
    /// 63 is max for wpa2
    pub ssid_pass: [u8; 64],
    /// The CRC-32 of the rest, as `sealed` sets it.
    pub crc32: u32,
}

impl Data {
    /// The checksum field.
    pub open spec fn checksum(self) -> u32 {
        self.crc32
    }

    /// The checksum field.
    pub fn crc32(&self) -> (c: u32)
        ensures
            c == self.checksum(),
    {
        self.crc32
    }

    /// The same record with `crc` in the checksum field.
    pub open spec fn with_checksum(self, crc: u32) -> Data {
        Data { crc32: crc, ..self }
    }

    /// The record as it is laid out in flash.
    pub open spec fn record_bytes(self) -> Seq<u8> {
        spec_u32_to_le_bytes(self.boot_count) + self.wanted_ssid@ + self.ssid_pass@
            + spec_u32_to_le_bytes(self.checksum())
    }

    /// The checksum a write stores: the CRC-32/CKSUM of the record with a
    /// zero checksum field.
    pub open spec fn seal_of(self) -> u32 {
        crc32_cksum_of(self.with_checksum(0).record_bytes())
    }

    /// `self` with the checksum of its contents in the checksum field.
    pub open spec fn sealed_spec(self) -> Data {
        self.with_checksum(self.seal_of())
    }

    /// Setting the checksum field keeps the other fields, and setting it
    /// twice is setting it once.
    pub proof fn lemma_with_checksum(self, crc: u32)
        ensures
            self.with_checksum(crc).boot_count == self.boot_count,
            self.with_checksum(crc).wanted_ssid == self.wanted_ssid,
            self.with_checksum(crc).ssid_pass == self.ssid_pass,
            self.with_checksum(crc).checksum() == crc,
            self.with_checksum(self.checksum()) == self,
            forall|c2: u32| #[trigger] self.with_checksum(crc).with_checksum(c2) == self.with_checksum(c2),
    {
    }

    /// The layout as bytes, as written to flash.
    pub fn to_bytes(&self) -> (bytes: Vec<u8>)
        ensures
            bytes@ == self.record_bytes(),
            bytes@.subrange(0, 4) == spec_u32_to_le_bytes(self.boot_count),
            bytes@.subrange(4, 36) == self.wanted_ssid@,
            bytes@.subrange(36, 100) == self.ssid_pass@,
            bytes@.subrange(100, 104) == spec_u32_to_le_bytes(self.crc32),
            bytes@.len() == RECORD_LEN,
    {
        proof {
            lemma_auto_spec_u32_to_from_le_bytes();
        }
        let mut bytes = u32_to_le_bytes(self.boot_count);
        let mut i: usize = 0;
        while i < 32
            invariant
                i <= 32,
                bytes@ == spec_u32_to_le_bytes(self.boot_count) + self.wanted_ssid@.take(i as int),
            decreases 32 - i,
        {
            bytes.push(self.wanted_ssid[i]);
            assert(self.wanted_ssid@.take(i + 1) =~= self.wanted_ssid@.take(i as int).push(
                self.wanted_ssid@[i as int],
            ));
            i = i + 1;
        }
        let mut i: usize = 0;
        while i < 64
            invariant
                i <= 64,
                bytes@ == spec_u32_to_le_bytes(self.boot_count) + self.wanted_ssid@
                    + self.ssid_pass@.take(i as int),
            decreases 64 - i,
        {
            bytes.push(self.ssid_pass[i]);
            assert(self.ssid_pass@.take(i + 1) =~= self.ssid_pass@.take(i as int).push(
                self.ssid_pass@[i as int],
            ));
            i = i + 1;
        }
        let mut tail = u32_to_le_bytes(self.crc32);
        bytes.append(&mut tail);
        assert(self.wanted_ssid@.take(32) =~= self.wanted_ssid@);
        assert(self.ssid_pass@.take(64) =~= self.ssid_pass@);
        assert(bytes@.subrange(0, 4) =~= spec_u32_to_le_bytes(self.boot_count));
        assert(bytes@.subrange(4, 36) =~= self.wanted_ssid@);
        assert(bytes@.subrange(36, 100) =~= self.ssid_pass@);
        assert(bytes@.subrange(100, 104) =~= spec_u32_to_le_bytes(self.crc32));
        bytes
    }

    /// Reads a record from its first `RECORD_LEN` bytes, as laid out in flash.
    pub fn from_bytes(bytes: &[u8]) -> (d: Data)
        requires
            bytes.len() >= RECORD_LEN,
        ensures
            d.record_bytes() == bytes@.take(RECORD_LEN as int),
    {
        proof {
            lemma_auto_spec_u32_to_from_le_bytes();
        }
        let boot_count = u32_from_le_bytes(slice_subrange(bytes, 0, 4));
        let mut wanted_ssid = [0u8; 32];
        let mut i: usize = 0;
        while i < 32
            invariant
                i <= 32,
                bytes.len() >= RECORD_LEN,
                forall|k: int| 0 <= k < i ==> wanted_ssid@[k] == bytes@[4 + k],
            decreases 32 - i,
        {
            wanted_ssid[i] = bytes[4 + i];
            i = i + 1;
        }
        let mut ssid_pass = [0u8; 64];
        let mut i: usize = 0;
        while i < 64
            invariant
                i <= 64,
                bytes.len() >= RECORD_LEN,
                forall|k: int| 0 <= k < i ==> ssid_pass@[k] == bytes@[36 + k],
            decreases 64 - i,
        {
            ssid_pass[i] = bytes[36 + i];
            i = i + 1;
        }
        let crc32 = u32_from_le_bytes(slice_subrange(bytes, 100, 104));
        let d = Data { boot_count, wanted_ssid, ssid_pass, crc32 };
        assert(spec_u32_to_le_bytes(boot_count) =~= bytes@.subrange(0, 4));
        assert(spec_u32_to_le_bytes(crc32) =~= bytes@.subrange(100, 104));
        assert(d.record_bytes() =~= bytes@.take(RECORD_LEN as int));
        d
    }

    /// `self` with its checksum field set to the CRC-32 of its contents, as
    /// the flash write stores it.
    pub fn sealed(&self) -> (d: Data)
        ensures
            d == self.sealed_spec(),
            d.boot_count == self.boot_count,
            d.wanted_ssid == self.wanted_ssid,
            d.ssid_pass == self.ssid_pass,
            d.crc32 == self.seal_of(),
    {
        let mut zeroed = *self;
        zeroed.crc32 = 0;
        let bytes = zeroed.to_bytes();
        let crc = crc32_cksum(bytes.as_slice());
        Data { crc32: crc, ..*self }
    }

    /// The bytes the flash write stores: the sealed record.
    pub fn flash_image(&self) -> (bytes: Vec<u8>)
        ensures
            bytes@ == self.sealed_spec().record_bytes(),
            bytes@.len() == RECORD_LEN,
    {
        self.sealed().to_bytes()
    }
}

/// Reading a record back from the bytes written for it gives the record:
/// two records with the same layout are the same record.
pub proof fn lemma_record_read_back(written: Data, read: Data)
    requires
        read.record_bytes() == written.record_bytes(),
    ensures
        read == written,
{
    lemma_auto_spec_u32_to_from_le_bytes();
    let a = read.record_bytes();
    let b = written.record_bytes();
    assert(a.subrange(0, 4) =~= spec_u32_to_le_bytes(read.boot_count));
    assert(b.subrange(0, 4) =~= spec_u32_to_le_bytes(written.boot_count));
    assert(read.boot_count == spec_u32_from_le_bytes(a.subrange(0, 4)));
    assert(a.subrange(4, 36) =~= read.wanted_ssid@);
    assert(b.subrange(4, 36) =~= written.wanted_ssid@);
    assert(a.subrange(36, 100) =~= read.ssid_pass@);
    assert(b.subrange(36, 100) =~= written.ssid_pass@);
    assert(a.subrange(100, 104) =~= spec_u32_to_le_bytes(read.checksum()));
    assert(b.subrange(100, 104) =~= spec_u32_to_le_bytes(written.checksum()));
    assert(read.checksum() == spec_u32_from_le_bytes(a.subrange(100, 104)));
    assert(read.wanted_ssid == written.wanted_ssid);
    assert(read.ssid_pass == written.ssid_pass);
    read.lemma_with_checksum(0);
    written.lemma_with_checksum(0);
}

/// Sealing a sealed record changes nothing: the seal does not depend on the
/// checksum field it is stored in.
pub proof fn lemma_seal_idempotent(d: Data)
    ensures
        d.sealed_spec().sealed_spec() == d.sealed_spec(),
{
    d.lemma_with_checksum(d.seal_of());
    d.lemma_with_checksum(0);
    let s = d.sealed_spec();
    assert(s.with_checksum(0) == d.with_checksum(0));
}

} // verus!
