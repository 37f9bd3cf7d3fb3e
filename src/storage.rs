//! A tiered storage: writable once, then read-only.
use vstd::prelude::*;
use crate::account::{StorableAccountsWithHashesAndWriteVersions, StoredAccountInfo};
use crate::error::{TieredStorageError, TieredStorageResult};
use crate::hash::blake3_of;
use crate::reader::{valid_file, HotStorageReader};
use crate::theorems::batch_fits;
use crate::writer::{
    batch_len, batch_owner_table, file_image, info_spec, writable_format, TieredStorageFormat,
    TieredStorageWriter,
};

verus! {

/// A tiered storage file at a path: either still to be written (it has a
/// format and no reader) or sealed (it has a reader).
#[derive(Debug)]
pub struct TieredStorage {
    pub reader: Option<HotStorageReader>,
    pub format: Option<TieredStorageFormat>,
    pub path: String,
}

impl TieredStorage {
    /// A sealed storage holds a valid file.
    pub open spec fn wf(&self) -> bool {
        self.reader matches Some(r) ==> r.wf()
    }

    /// A storage that the accounts are still to be written to.
    pub fn new_writable(path: String, format: TieredStorageFormat) -> (r: TieredStorage)
        ensures
            r.reader is None,
            r.format == Some(format),
            r.path@ == path@,
            r.wf(),
    {
        TieredStorage { reader: None, format: Some(format), path }
    }

    /// A sealed storage over the file whose bytes are `bytes`.
    pub fn new_readonly(path: String, bytes: Vec<u8>) -> (r: TieredStorageResult<TieredStorage>)
        ensures
            r.is_ok() <==> valid_file(bytes@),
            r matches Ok(s) ==> (s.wf() && s.format is None && s.path@ == path@ && (s.reader matches Some(
                rd,
            ) && rd.bytes@ == bytes@)),
    {
        match HotStorageReader::new_from_bytes(bytes) {
            Ok(reader) => Ok(TieredStorage { reader: Some(reader), format: None, path }),
            Err(e) => Err(e),
        }
    }

    /// The path of the storage.
    pub fn path(&self) -> (r: &String)
        ensures
            r@ == self.path@,
    {
        &self.path
    }

    /// Whether the storage is sealed.
    pub fn is_read_only(&self) -> (r: bool)
        ensures
            r == self.reader is Some,
    {
        self.reader.is_some()
    }

    /// The reader of a sealed storage.
    pub fn reader(&self) -> (r: Option<&HotStorageReader>)
        ensures
            r is Some <==> self.reader is Some,
            r matches Some(rd) ==> self.reader == Some(*rd),
    {
        match &self.reader {
            Some(r) => Some(r),
            None => None,
        }
    }

    /// The size of the sealed file, or 0 before it is written.
    pub fn file_size(&self) -> (r: u64)
        ensures
            self.reader matches Some(rd) ==> r == rd.bytes@.len(),
            self.reader is None ==> r == 0,
    {
        match &self.reader {
            Some(r) => r.bytes.len() as u64,
            None => 0,
        }
    }

    /// Writes the accounts of `accounts` from position `skip` on and seals
    /// the storage; its reader then holds the bytes of the file. Can only
    /// succeed once.
    pub fn write_accounts(
        &mut self,
        accounts: &StorableAccountsWithHashesAndWriteVersions,
        skip: usize,
    ) -> (r: TieredStorageResult<Vec<StoredAccountInfo>>)
        requires
            old(self).wf(),
            accounts.wf(),
            batch_len(*accounts, skip as int) <= 0xffff_ffff,
            8 * batch_len(*accounts, skip as int) <= usize::MAX,
        ensures
            final(self).wf(),
            final(self).path == old(self).path,
            old(self).reader is Some ==> (r matches Err(TieredStorageError::AttemptToUpdateReadOnly(p)) && p@ == old(self).path@),
            old(self).reader is Some ==> *final(self) == *old(self),
            old(self).reader is None && (old(self).format is None || !writable_format(old(self).format.unwrap())) ==> r == Err::<Vec<StoredAccountInfo>, TieredStorageError>(TieredStorageError::Unsupported),
            old(self).reader is None && (old(self).format matches Some(f) && writable_format(f))
                && batch_owner_table(*accounts, skip as int).len() > 0x2000_0000 ==> r == Err::<Vec<StoredAccountInfo>, TieredStorageError>(TieredStorageError::OwnerIndexOverflow),
            old(self).reader is None && (old(self).format matches Some(f) && writable_format(f))
                && batch_owner_table(*accounts, skip as int).len() <= 0x2000_0000 ==> r.is_ok(),
            r.is_err() && old(self).reader is None ==> final(self).reader is None,
            r matches Ok(infos) ==> (old(self).reader is None && (final(self).reader matches Some(rd) && rd.bytes@ == file_image(*accounts, skip as int)
                && rd.bytes@.subrange(rd.bytes@.len() - 56, rd.bytes@.len() - 24) == blake3_of(rd.bytes@.take(rd.bytes@.len() - 56)))
                && batch_fits(*accounts, skip as int)
                && infos@.len() == batch_len(*accounts, skip as int)
                && forall|i: int| 0 <= i < infos@.len() ==> infos@[i] == info_spec(*accounts, skip as int, i)),
    {
        if self.reader.is_some() {
            return Err(TieredStorageError::AttemptToUpdateReadOnly(self.path.clone()));
        }
        let format = match self.format {
            Some(f) => f,
            None => {
                return Err(TieredStorageError::Unsupported);
            },
        };
        let writer = TieredStorageWriter::new(&format);
        let (infos, bytes) = match writer.write_accounts(accounts, skip) {
            Ok(written) => written,
            Err(e) => {
                return Err(e);
            },
        };
        match HotStorageReader::new_from_bytes(bytes) {
            Ok(reader) => {
                self.reader = Some(reader);
                Ok(infos)
            },
            Err(e) => Err(e),
        }
    }
}

} // verus!
