//! Address normalization: index validity, metadata deduplication, order
//! preservation, and unknown attribution.

use addrnorm::meta::Elf;
use addrnorm::meta::UserAddrMeta;
use addrnorm::normalize::Normalizer;
use addrnorm::normalize::Region;

fn elf_meta(path: &[u8]) -> UserAddrMeta {
    UserAddrMeta::Elf(Elf {
        path: path.to_vec(),
        build_id: None,
    })
}

fn two_regions() -> Vec<Region> {
    vec![
        Region {
            start: 0,
            end: 100,
            file_off: 0x400,
            meta: elf_meta(b"/bin/first"),
        },
        Region {
            start: 200,
            end: 300,
            file_off: 0,
            meta: elf_meta(b"/bin/second"),
        },
    ]
}

/// Every output index is valid and the output has one entry per input, in
/// input order.
#[test]
fn index_validity_and_order() {
    let normalizer = Normalizer::new();
    let addrs = vec![50, 10, 30];
    let out = normalizer.normalize_user_addrs(&addrs, &two_regions());

    assert_eq!(out.addrs.len(), 3);
    for pair in &out.addrs {
        assert!(pair.1 < out.meta.len());
    }
    // Input order is preserved: positions 0, 1, 2 answer inputs 50, 10, 30.
    assert_eq!(out.addrs[0].0, 50 + 0x400);
    assert_eq!(out.addrs[1].0, 10 + 0x400);
    assert_eq!(out.addrs[2].0, 30 + 0x400);
}

/// Addresses resolving into the same backing file share one metadata
/// entry.
#[test]
fn metadata_deduplication() {
    let normalizer = Normalizer::new();
    let addrs = vec![10, 20, 250];
    let out = normalizer.normalize_user_addrs_sorted(&addrs, &two_regions());

    assert_eq!(out.addrs[0].1, out.addrs[1].1);
    assert_ne!(out.addrs[0].1, out.addrs[2].1);
    assert_eq!(out.meta.len(), 2);
    assert_eq!(out.meta[out.addrs[0].1], elf_meta(b"/bin/first"));
    assert_eq!(out.meta[out.addrs[2].1], elf_meta(b"/bin/second"));
}

/// Two separate regions backed by the same file collapse to one metadata
/// entry as well.
#[test]
fn same_file_two_regions() {
    let normalizer = Normalizer::new();
    let regions = vec![
        Region {
            start: 0,
            end: 10,
            file_off: 0,
            meta: elf_meta(b"/bin/one"),
        },
        Region {
            start: 20,
            end: 30,
            file_off: 0x100,
            meta: elf_meta(b"/bin/one"),
        },
    ];
    let addrs = vec![5, 25];
    let out = normalizer.normalize_user_addrs_sorted(&addrs, &regions);
    assert_eq!(out.meta.len(), 1);
    assert_eq!(out.addrs[0].1, out.addrs[1].1);
}

/// An address outside all file-backed regions yields `Unknown`, never a
/// spurious attribution, and a zero offset.
#[test]
fn unresolvable_address() {
    let normalizer = Normalizer::new();
    let addrs = vec![150, 4096];
    let out = normalizer.normalize_user_addrs_sorted(&addrs, &two_regions());

    assert_eq!(out.addrs[0].0, 0);
    assert!(matches!(out.meta[out.addrs[0].1], UserAddrMeta::Unknown(_)));
    assert_eq!(out.addrs[1].0, 0);
    assert!(matches!(out.meta[out.addrs[1].1], UserAddrMeta::Unknown(_)));
    // Both unknowns share one metadata entry.
    assert_eq!(out.addrs[0].1, out.addrs[1].1);
    assert_eq!(out.meta.len(), 1);
}

/// A zero-length batch yields a valid result with no addresses and no
/// metadata, not an error.
#[test]
fn empty_batch() {
    let normalizer = Normalizer::new();
    let addrs: Vec<u64> = Vec::new();
    let out = normalizer.normalize_user_addrs(&addrs, &two_regions());
    assert_eq!(out.addrs.len(), 0);
    assert_eq!(out.meta.len(), 0);

    let flat = addrnorm::c_api::blaze_normalized_user_addrs::from(out);
    assert_eq!(flat.addr_count, 0);
    assert_eq!(flat.meta_count, 0);
}

/// A batch mixing resolvable and unresolvable addresses attributes each
/// one independently, with exact offsets.
#[test]
fn mixed_batch() {
    let normalizer = Normalizer::new();
    let addrs = vec![299, 0, 150, 99];
    let out = normalizer.normalize_user_addrs(&addrs, &two_regions());

    assert_eq!(out.addrs.len(), 4);
    // 299 lies in the second region: 299 - 200 + 0.
    assert_eq!(out.addrs[0].0, 99);
    assert_eq!(out.meta[out.addrs[0].1], elf_meta(b"/bin/second"));
    // 0 lies in the first region: 0 - 0 + 0x400.
    assert_eq!(out.addrs[1].0, 0x400);
    assert_eq!(out.meta[out.addrs[1].1], elf_meta(b"/bin/first"));
    // 150 lies in the gap.
    assert!(matches!(out.meta[out.addrs[2].1], UserAddrMeta::Unknown(_)));
    // 99 is the last address of the first region.
    assert_eq!(out.addrs[3].0, 99 + 0x400);
    assert_eq!(out.meta[out.addrs[3].1], elf_meta(b"/bin/first"));
}

/// On sorted input the sorted and the unsorted entry points return
/// identical results: same pairs, same metadata in the same order.
#[test]
fn sorted_unsorted_agree() {
    let normalizer = Normalizer::new();
    let addrs = vec![0, 10, 99, 150, 250, 299];
    let a = normalizer.normalize_user_addrs_sorted(&addrs, &two_regions());
    let b = normalizer.normalize_user_addrs(&addrs, &two_regions());
    assert_eq!(a.addrs, b.addrs);
    assert_eq!(a.meta, b.meta);
}
