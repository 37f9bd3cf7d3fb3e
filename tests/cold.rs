use tiered_storage::cold::{
    AccountMetaStorageEntry, ColdAccountMeta, COLD_EXECUTABLE, COLD_HAS_ACCOUNT_HASH,
    COLD_HAS_RENT_EPOCH, COLD_HAS_WRITE_VERSION,
};
use tiered_storage::meta::{AccountHash, AccountMetaOptionalFields};

#[test]
fn cold_test_account_meta_entry() {
    const TEST_LAMPORT: u64 = 7;
    const BLOCK_OFFSET: u64 = 56987;
    const OWNER_LOCAL_ID: u32 = 54;
    const UNCOMPRESSED_LENGTH: u16 = 0;
    const LOCAL_OFFSET: u16 = 82;

    let entry = ColdAccountMeta::new()
        .with_lamports(TEST_LAMPORT)
        .with_block_offset(BLOCK_OFFSET)
        .with_owner_local_id(OWNER_LOCAL_ID)
        .with_uncompressed_data_size(UNCOMPRESSED_LENGTH)
        .with_intra_block_offset(LOCAL_OFFSET)
        .with_flags((COLD_EXECUTABLE | COLD_HAS_RENT_EPOCH) as u32);

    assert_eq!(entry.lamports, TEST_LAMPORT);
    assert_eq!(entry.block_offset, BLOCK_OFFSET);
    assert_eq!(entry.owner_local_id, OWNER_LOCAL_ID);
    assert_eq!(entry.uncompressed_data_size, UNCOMPRESSED_LENGTH);
    assert_eq!(entry.intra_block_offset, LOCAL_OFFSET);
    assert_eq!(entry.flags & COLD_EXECUTABLE as u32, 1);

    let mut bytes = Vec::new();
    assert_eq!(entry.write_account_meta_entry(&mut bytes), 32);
    let read = ColdAccountMeta::new_from_bytes(&bytes, 0);
    assert_eq!(entry, read);
    assert_eq!(read.flags & COLD_EXECUTABLE as u32, 1);
    assert_eq!(read.flags & COLD_HAS_RENT_EPOCH as u32, 2);
}

#[test]
fn meta_entries_test_account_meta_entry() {
    const TEST_LAMPORT: u64 = 7;
    const BLOCK_OFFSET: u64 = 56987;
    const OWNER_LOCAL_ID: u32 = 54;
    const UNCOMPRESSED_LENGTH: u16 = 0;
    const LOCAL_OFFSET: u16 = 82;
    const TEST_RENT_EPOCH: u64 = 7;
    const TEST_WRITE_VERSION: u64 = 0;

    let optional_fields = AccountMetaOptionalFields {
        rent_epoch: Some(TEST_RENT_EPOCH),
        account_hash: Some(AccountHash::new([4u8; 32])),
        write_version: Some(TEST_WRITE_VERSION),
    };

    let entry = AccountMetaStorageEntry::new()
        .with_lamports(TEST_LAMPORT)
        .with_block_offset(BLOCK_OFFSET)
        .with_owner_local_id(OWNER_LOCAL_ID)
        .with_uncompressed_data_size(UNCOMPRESSED_LENGTH)
        .with_intra_block_offset(LOCAL_OFFSET)
        .with_flags(COLD_EXECUTABLE)
        .with_optional_fields(&optional_fields);

    assert_eq!(entry.lamports(), TEST_LAMPORT);
    assert_eq!(entry.block_offset(), BLOCK_OFFSET);
    assert_eq!(entry.owner_local_id(), OWNER_LOCAL_ID);
    assert_eq!(entry.uncompressed_data_size(), UNCOMPRESSED_LENGTH);
    assert_eq!(entry.intra_block_offset(), LOCAL_OFFSET);
    assert!(entry.flags_get(COLD_EXECUTABLE));
    assert!(entry.flags_get(COLD_HAS_RENT_EPOCH));
    assert!(entry.flags_get(COLD_HAS_ACCOUNT_HASH));
    assert!(entry.flags_get(COLD_HAS_WRITE_VERSION));
    assert_eq!(entry.optional_fields_size(), 48);

    let mut bytes = Vec::new();
    assert_eq!(entry.write_account_meta_entry(&mut bytes), 32);
    let read = AccountMetaStorageEntry::new_from_bytes(&bytes, 0);
    assert_eq!(entry, read);
    assert!(read.flags_get(COLD_EXECUTABLE));
    assert!(read.flags_get(COLD_HAS_RENT_EPOCH));
}

#[test]
fn test_cold_account_meta_layout() {
    let entry = ColdAccountMeta::new()
        .with_lamports(0x0101_0101_0101_0101)
        .with_block_offset(0x0202_0202_0202_0202)
        .with_uncompressed_data_size(0x0303)
        .with_intra_block_offset(0x0404)
        .with_owner_local_id(0x0505_0505)
        .with_flags(0x0606_0606);
    let mut bytes = Vec::new();
    entry.write_account_meta_entry(&mut bytes);
    assert_eq!(bytes.len(), 32);
    assert_eq!(&bytes[0x00..0x08], &[1u8; 8]);
    assert_eq!(&bytes[0x08..0x10], &[2u8; 8]);
    assert_eq!(&bytes[0x10..0x12], &[3u8; 2]);
    assert_eq!(&bytes[0x12..0x14], &[4u8; 2]);
    assert_eq!(&bytes[0x14..0x18], &[5u8; 4]);
    assert_eq!(&bytes[0x18..0x1C], &[6u8; 4]);
}

#[test]
fn test_meta_entry_layout() {
    let entry = AccountMetaStorageEntry::new()
        .with_lamports(0x0101_0101_0101_0101)
        .with_block_offset(0x0202_0202_0202_0202)
        .with_uncompressed_data_size(0x0303)
        .with_intra_block_offset(0x0404)
        .with_owner_local_id(0x0505_0505)
        .with_flags(0x0606_0606_0606_0606);
    let mut bytes = Vec::new();
    entry.write_account_meta_entry(&mut bytes);
    assert_eq!(bytes.len(), 32);
    assert_eq!(&bytes[0x00..0x08], &[1u8; 8]);
    assert_eq!(&bytes[0x08..0x10], &[2u8; 8]);
    assert_eq!(&bytes[0x10..0x12], &[3u8; 2]);
    assert_eq!(&bytes[0x12..0x14], &[4u8; 2]);
    assert_eq!(&bytes[0x14..0x18], &[5u8; 4]);
    assert_eq!(&bytes[0x18..0x20], &[6u8; 8]);
}

#[test]
fn raw_block_size_past_the_end_is_zero() {
    let metas = vec![ColdAccountMeta::new().with_uncompressed_data_size(7)];
    assert_eq!(ColdAccountMeta::get_raw_block_size(&metas, 0), 7);
    assert_eq!(ColdAccountMeta::get_raw_block_size(&metas, 1), 0);
    let entries: Vec<AccountMetaStorageEntry> = Vec::new();
    assert_eq!(AccountMetaStorageEntry::get_raw_block_size(&entries, 0), 0);
}

#[test]
fn test_flags() {
    let cleared = AccountMetaStorageEntry::new();
    assert!(!cleared.flags_get(COLD_EXECUTABLE));
    assert!(!cleared.flags_get(COLD_HAS_RENT_EPOCH));

    let flags = AccountMetaStorageEntry::new().with_flags(COLD_EXECUTABLE);
    assert!(flags.flags_get(COLD_EXECUTABLE));
    assert!(!flags.flags_get(COLD_HAS_RENT_EPOCH));

    let both = flags.with_flags(COLD_EXECUTABLE | COLD_HAS_RENT_EPOCH);
    assert!(both.flags_get(COLD_EXECUTABLE));
    assert!(both.flags_get(COLD_HAS_RENT_EPOCH));

    let cleared_fields = AccountMetaOptionalFields {
        rent_epoch: None,
        account_hash: None,
        write_version: None,
    };
    let rent_cleared = both.with_optional_fields(&cleared_fields);
    assert!(rent_cleared.flags_get(COLD_EXECUTABLE));
    assert!(!rent_cleared.flags_get(COLD_HAS_RENT_EPOCH));
}

#[test]
fn raw_block_size_sums_shared_block() {
    let metas: Vec<ColdAccountMeta> = [(0u64, 10u16), (0, 20), (0, 30), (64, 5), (64, 6)]
        .iter()
        .map(|(offset, size)| {
            ColdAccountMeta::new()
                .with_block_offset(*offset)
                .with_uncompressed_data_size(*size)
        })
        .collect();
    assert_eq!(ColdAccountMeta::get_raw_block_size(&metas, 0), 60);
    assert_eq!(ColdAccountMeta::get_raw_block_size(&metas, 1), 50);
    assert_eq!(ColdAccountMeta::get_raw_block_size(&metas, 3), 11);
    assert_eq!(ColdAccountMeta::get_raw_block_size(&metas, 4), 6);

    let entries: Vec<AccountMetaStorageEntry> = [(8u64, 1u16), (8, 2), (16, 4)]
        .iter()
        .map(|(offset, size)| {
            AccountMetaStorageEntry::new()
                .with_block_offset(*offset)
                .with_uncompressed_data_size(*size)
        })
        .collect();
    assert_eq!(AccountMetaStorageEntry::get_raw_block_size(&entries, 0), 3);
    assert_eq!(AccountMetaStorageEntry::get_raw_block_size(&entries, 2), 4);
}

#[test]
fn blob_account_data() {
    let block: Vec<u8> = (0..60u8).collect();
    let blob = AccountMetaStorageEntry::new()
        .with_uncompressed_data_size(0xffff)
        .with_flags(COLD_HAS_RENT_EPOCH | COLD_HAS_ACCOUNT_HASH);
    assert!(blob.is_blob_account());
    assert_eq!(blob.optional_fields_offset(&block), 20);
    assert_eq!(blob.account_data(&block), &block[..20]);

    let shared = AccountMetaStorageEntry::new()
        .with_uncompressed_data_size(10)
        .with_intra_block_offset(5);
    assert!(!shared.is_blob_account());
    assert_eq!(shared.optional_fields_offset(&block), 15);
    assert_eq!(shared.account_data(&block), &block[5..15]);
}
