//! The in-memory staging buffer of one account block.
use vstd::prelude::*;
use crate::bytes::{push_bytes, push_zeros};
use crate::error::TieredStorageError;
use crate::footer::AccountBlockFormat;
use crate::meta::{meta_bytes, optional_bytes, AccountMetaOptionalFields, HotAccountMeta};

verus! {

/// Accumulates the bytes of one account block in the chosen block format.
pub struct ByteBlockWriter {
    pub format: AccountBlockFormat,
    pub buffer: Vec<u8>,
}

impl ByteBlockWriter {
    /// An empty block in `format`.
    pub fn new(format: AccountBlockFormat) -> (r: ByteBlockWriter)
        ensures
            r.format == format,
            r.buffer@ == Seq::<u8>::empty(),
    {
        ByteBlockWriter { format, buffer: Vec::new() }
    }

    /// Appends raw bytes.
    pub fn write(&mut self, bytes: &[u8])
        ensures
            final(self).format == old(self).format,
            final(self).buffer@ == old(self).buffer@ + bytes@,
    {
        push_bytes(&mut self.buffer, bytes);
    }

    /// Appends `n` zero bytes of padding.
    pub fn write_padding(&mut self, n: usize)
        ensures
            final(self).format == old(self).format,
            final(self).buffer@ == old(self).buffer@ + Seq::new(n as nat, |k: int| 0u8),
    {
        push_zeros(&mut self.buffer, n);
    }

    /// Appends the 16 bytes of a metadata entry.
    pub fn write_meta(&mut self, meta: &HotAccountMeta)
        requires
            meta.wf(),
        ensures
            final(self).format == old(self).format,
            final(self).buffer@ == old(self).buffer@ + meta_bytes(*meta),
    {
        meta.write(&mut self.buffer);
    }

    /// Appends the present optional fields in their fixed order.
    pub fn write_optional_fields(&mut self, fields: &AccountMetaOptionalFields)
        ensures
            final(self).format == old(self).format,
            final(self).buffer@ == old(self).buffer@ + optional_bytes(*fields),
    {
        fields.write(&mut self.buffer);
    }

    /// The bytes of the block; only the aligned raw format is implemented.
    pub fn finish(self) -> (r: Result<Vec<u8>, TieredStorageError>)
        ensures
            self.format == AccountBlockFormat::AlignedRaw ==> (r matches Ok(v) && v@ == self.buffer@),
            self.format == AccountBlockFormat::Lz4 ==> r == Err::<Vec<u8>, TieredStorageError>(TieredStorageError::Unsupported),
    {
        match self.format {
            AccountBlockFormat::AlignedRaw => Ok(self.buffer),
            AccountBlockFormat::Lz4 => Err(TieredStorageError::Unsupported),
        }
    }
}

} // verus!
