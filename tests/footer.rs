use tiered_storage::footer::{
    AccountBlockFormat, AccountIndexFormat, AccountMetaFormat, OwnersBlockFormat,
    TieredStorageFooter, FOOTER_FORMAT_VERSION, FOOTER_SIZE,
};
use tiered_storage::meta::{AccountHash, Pubkey};

fn sample_footer(account_meta_entry_size: u32) -> TieredStorageFooter {
    TieredStorageFooter {
        account_meta_format: AccountMetaFormat::Hot,
        owners_block_format: OwnersBlockFormat::LocalIndex,
        account_index_format: AccountIndexFormat::AddressAndOffset,
        account_block_format: AccountBlockFormat::AlignedRaw,
        account_entry_count: 300,
        account_meta_entry_size,
        account_block_size: 4096,
        owner_count: 250,
        owner_entry_size: 32,
        index_block_offset: 1069600,
        owners_block_offset: 1081200,
        hash: AccountHash::new([7u8; 32]),
        min_account_address: Pubkey::new([0u8; 32]),
        max_account_address: Pubkey::new([0xfe; 32]),
        footer_size: FOOTER_SIZE as u64,
        format_version: FOOTER_FORMAT_VERSION,
    }
}

#[test]
fn test_footer_size() {
    let mut bytes = Vec::new();
    sample_footer(16).write_footer_block(&mut bytes);
    assert_eq!(bytes.len(), FOOTER_SIZE + 8);
}

#[test]
fn test_footer() {
    let expected_footer = sample_footer(24);
    let mut bytes = Vec::new();
    expected_footer.write_footer_block(&mut bytes);
    let footer = TieredStorageFooter::read(&bytes, 0).unwrap();
    assert_eq!(expected_footer, footer);
}

#[test]
fn test_hot_storage_footer() {
    let expected_footer = sample_footer(16);
    let mut bytes = vec![0u8; 13];
    expected_footer.write_footer_block(&mut bytes);
    let footer = TieredStorageFooter::read(&bytes, 13).unwrap();
    assert_eq!(expected_footer, footer);
}

#[test]
fn test_footer_layout() {
    let footer = sample_footer(16);
    let mut bytes = Vec::new();
    footer.write_footer_block(&mut bytes);
    let u64_at = |o: usize| u64::from_le_bytes(bytes[o..o + 8].try_into().unwrap());
    let u32_at = |o: usize| u32::from_le_bytes(bytes[o..o + 4].try_into().unwrap());
    assert_eq!(u64_at(0x00), 0);
    assert_eq!(u64_at(0x08), 0);
    assert_eq!(u64_at(0x10), 0);
    assert_eq!(u64_at(0x18), 0);
    assert_eq!(u32_at(0x20), 300);
    assert_eq!(u32_at(0x24), 16);
    assert_eq!(u64_at(0x28), 4096);
    assert_eq!(u32_at(0x30), 250);
    assert_eq!(u32_at(0x34), 32);
    assert_eq!(u64_at(0x38), 1069600);
    assert_eq!(u64_at(0x40), 1081200);
    assert_eq!(&bytes[0x48..0x68], &[0u8; 32]);
    assert_eq!(&bytes[0x68..0x88], &[0xfe; 32]);
    assert_eq!(&bytes[0x88..0xA8], &[7u8; 32]);
    assert_eq!(u64_at(0xA8), 184);
    assert_eq!(u64_at(0xB0), 1);
}

#[test]
fn format_codes_round_trip() {
    assert_eq!(AccountMetaFormat::from_u64(AccountMetaFormat::Cold.to_u64()), Some(AccountMetaFormat::Cold));
    assert_eq!(AccountMetaFormat::from_u64(2), None);
    assert_eq!(AccountBlockFormat::from_u64(1), Some(AccountBlockFormat::Lz4));
    assert_eq!(OwnersBlockFormat::from_u64(0), Some(OwnersBlockFormat::LocalIndex));
    assert_eq!(AccountIndexFormat::from_u64(1), None);
    assert_eq!(AccountIndexFormat::AddressAndOffset.entry_size(), 40);
}
