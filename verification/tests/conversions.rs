//! Round trips between native metadata records and their flat boundary
//! form.

use addrnorm::c_api::blaze_normalized_addr;
use addrnorm::c_api::blaze_normalized_user_addrs;
use addrnorm::c_api::blaze_user_addr_meta;
use addrnorm::c_api::blaze_user_addr_meta_apk_elf;
use addrnorm::c_api::blaze_user_addr_meta_elf;
use addrnorm::c_api::blaze_user_addr_meta_kind;
use addrnorm::c_api::blaze_user_addr_meta_unknown;
use addrnorm::meta::ApkElf;
use addrnorm::meta::Elf;
use addrnorm::meta::Unknown;
use addrnorm::meta::UserAddrMeta;
use addrnorm::normalize::NormalizedUserAddrs;

/// Check that we can convert an `Unknown` into a
/// `blaze_user_addr_meta_unknown` and back.
#[test]
fn unknown_conversion() {
    let unknown = Unknown {};

    let unknown_new = Unknown::from(blaze_user_addr_meta_unknown::from(unknown.clone()));
    assert_eq!(unknown_new, unknown);

    let meta = UserAddrMeta::Unknown(unknown_new);
    let meta_new = UserAddrMeta::from(blaze_user_addr_meta::from(meta.clone()));
    assert_eq!(meta_new, meta);
}

/// Check that we can convert an `ApkElf` into a
/// `blaze_user_addr_meta_apk_elf` and back.
#[test]
fn apk_elf_conversion() {
    let apk = ApkElf {
        apk_path: b"/tmp/archive.apk".to_vec(),
        elf_path: b"file.so".to_vec(),
        elf_build_id: Some(vec![0x01, 0x02, 0x03, 0x04]),
    };

    let apk_new = ApkElf::from(blaze_user_addr_meta_apk_elf::from(apk.clone()));
    assert_eq!(apk_new, apk);

    let apk = ApkElf {
        apk_path: Vec::new(),
        elf_path: Vec::new(),
        elf_build_id: None,
    };

    let apk_new = ApkElf::from(blaze_user_addr_meta_apk_elf::from(apk.clone()));
    assert_eq!(apk_new, apk);

    let meta = UserAddrMeta::ApkElf(apk_new);
    let meta_new = UserAddrMeta::from(blaze_user_addr_meta::from(meta.clone()));
    assert_eq!(meta_new, meta);
}

/// Check that we can convert an `Elf` into a `blaze_user_addr_meta_elf`
/// and back.
#[test]
fn elf_conversion() {
    let elf = Elf {
        path: b"/tmp/file.so".to_vec(),
        build_id: Some(vec![0x01, 0x02, 0x03, 0x04]),
    };

    let elf_new = Elf::from(blaze_user_addr_meta_elf::from(elf.clone()));
    assert_eq!(elf_new, elf);

    let meta = UserAddrMeta::Elf(elf_new);
    let meta_new = UserAddrMeta::from(blaze_user_addr_meta::from(meta.clone()));
    assert_eq!(meta_new, meta);
}

/// The flat form carries nul-terminated paths and an explicit build id
/// length, and the discriminant names the live variant.
#[test]
fn flat_form_fields() {
    let elf = Elf {
        path: b"/lib/x.so".to_vec(),
        build_id: Some(vec![0xaa, 0xbb]),
    };
    let flat = blaze_user_addr_meta_elf::from(elf);
    assert_eq!(flat.path, b"/lib/x.so\0".to_vec());
    assert_eq!(flat.build_id_len, 2);
    assert_eq!(flat.build_id, Some(vec![0xaa, 0xbb]));

    let tagged = blaze_user_addr_meta::from(UserAddrMeta::Unknown(Unknown {}));
    assert_eq!(
        tagged.kind,
        blaze_user_addr_meta_kind::BLAZE_USER_ADDR_UNKNOWN
    );

    let elf_without_id = Elf {
        path: Vec::new(),
        build_id: None,
    };
    let flat = blaze_user_addr_meta_elf::from(elf_without_id);
    assert_eq!(flat.path, b"\0".to_vec());
    assert_eq!(flat.build_id_len, 0);
    assert_eq!(flat.build_id, None);
}

/// A whole result flattens into matching counts and arrays, and
/// reconstructing yields the original records.
#[test]
fn batch_conversion() {
    let native = NormalizedUserAddrs {
        addrs: vec![(0x1000, 0), (0x2000, 1)],
        meta: vec![
            UserAddrMeta::Elf(Elf {
                path: b"/bin/a".to_vec(),
                build_id: None,
            }),
            UserAddrMeta::Unknown(Unknown {}),
        ],
    };
    let flat = blaze_normalized_user_addrs::from(NormalizedUserAddrs {
        addrs: native.addrs.clone(),
        meta: native.meta.clone(),
    });
    assert_eq!(flat.meta_count, 2);
    assert_eq!(flat.addr_count, 2);
    assert_eq!(flat.metas.len(), 2);
    assert_eq!(flat.addrs.len(), 2);
    assert_eq!(
        flat.addrs[0],
        blaze_normalized_addr {
            addr: 0x1000,
            meta_idx: 0
        }
    );
    assert_eq!(
        flat.addrs[1],
        blaze_normalized_addr {
            addr: 0x2000,
            meta_idx: 1
        }
    );

    let back = NormalizedUserAddrs::from(flat);
    assert_eq!(back.addrs, native.addrs);
    assert_eq!(back.meta, native.meta);
}
