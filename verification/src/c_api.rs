//! The owned flat form of normalization results for the foreign boundary.
//!
//! Before crossing a foreign call boundary the native result is flattened:
//! each metadata record becomes an explicit discriminant tag beside the one
//! live variant, paths become nul-terminated byte strings, and an optional
//! build identifier travels with its explicit length. Everything here still
//! owns its memory; the final step — raw pointers, and freeing them — is
//! ordinary unverified plumbing outside this library, which hands these
//! values across one field at a time and back.
//!
//! Flattening and reconstruction are exact inverses on native values; the
//! round-trip laws at the end of this module state that.

use vstd::prelude::*;

use crate::meta::opt_view;
use crate::meta::ApkElf;
use crate::meta::ApkElfV;
use crate::meta::Elf;
use crate::meta::ElfV;
use crate::meta::Unknown;
use crate::meta::UserAddrMeta;
use crate::meta::UserAddrMetaV;
use crate::meta::bytes_dup;
use crate::meta::opt_bytes_dup;
use crate::normalize::NormalizedUserAddrs;
use crate::Addr;

verus! {

/// `p` holds no NUL byte, so it has a faithful nul-terminated form.
pub open spec fn nul_free(p: Seq<u8>) -> bool {
    forall|i: int| 0 <= i < p.len() ==> p[i] != 0
}

/// Every path of the record holds no NUL byte. A path with an interior NUL
/// cannot cross the boundary faithfully; the flattening functions refuse
/// such records by precondition, where their source refuses them loudly.
pub open spec fn meta_paths_nul_free(v: UserAddrMetaV) -> bool {
    match v {
        UserAddrMetaV::ApkElf(a) => nul_free(a.apk_path) && nul_free(a.elf_path),
        UserAddrMetaV::Elf(e) => nul_free(e.path),
        UserAddrMetaV::Unknown => true,
    }
}

/// A nul-terminated byte string for the path `p`.
pub open spec fn cstr_of(p: Seq<u8>) -> Seq<u8> {
    p.push(0)
}

/// The path carried by a nul-terminated byte string.
pub open spec fn path_of_cstr(c: Seq<u8>) -> Seq<u8> {
    if c.len() >= 1 {
        c.drop_last()
    } else {
        Seq::empty()
    }
}

/// The explicit length traveling beside an optional build identifier.
pub open spec fn len_of_opt(b: Option<Seq<u8>>) -> nat {
    match b {
        Some(x) => x.len(),
        None => 0,
    }
}

/// A normalized address along with an index into the metadata array beside
/// it.
#[derive(Clone, Copy, Debug, PartialEq, Eq, Structural)]
pub struct blaze_normalized_addr {
    /// The normalized address.
    pub addr: Addr,
    /// The index into the associated metadata array.
    pub meta_idx: usize,
}

impl blaze_normalized_addr {
    /// Flatten one `(offset, metadata index)` pair.
    pub fn from(t: (Addr, usize)) -> (r: blaze_normalized_addr)
        ensures
            r.addr == t.0,
            r.meta_idx == t.1,
    {
        blaze_normalized_addr { addr: t.0, meta_idx: t.1 }
    }
}

/// The discriminant naming the live variant of a flat metadata record.
#[derive(Clone, Copy, Debug, PartialEq, Eq, Structural)]
pub enum blaze_user_addr_meta_kind {
    /// The unknown variant is live.
    BLAZE_USER_ADDR_UNKNOWN,
    /// The archive-embedded variant is live.
    BLAZE_USER_ADDR_APK_ELF,
    /// The plain binary variant is live.
    BLAZE_USER_ADDR_ELF,
}

/// Mathematical value of a flat [`blaze_user_addr_meta_apk_elf`].
pub struct ApkElfFlatV {
    /// Nul-terminated archive path.
    pub apk_path: Seq<u8>,
    /// Nul-terminated member path.
    pub elf_path: Seq<u8>,
    /// Explicit length of the build identifier, zero when absent.
    pub elf_build_id_len: nat,
    /// The build identifier, if present.
    pub elf_build_id: Option<Seq<u8>>,
}

/// Flat form of [`ApkElf`]: owned nul-terminated paths, and the build
/// identifier beside its explicit length.
#[derive(Clone, Debug, PartialEq, Eq)]
pub struct blaze_user_addr_meta_apk_elf {
    /// The canonical absolute path to the archive, nul-terminated.
    pub apk_path: Vec<u8>,
    /// The relative path to the member binary, nul-terminated.
    pub elf_path: Vec<u8>,
    /// The length of the build identifier, in bytes; zero when absent.
    pub elf_build_id_len: usize,
    /// The build identifier of the member binary, if found.
    pub elf_build_id: Option<Vec<u8>>,
}

impl View for blaze_user_addr_meta_apk_elf {
    type V = ApkElfFlatV;

    open spec fn view(&self) -> ApkElfFlatV {
        ApkElfFlatV {
            apk_path: self.apk_path@,
            elf_path: self.elf_path@,
            elf_build_id_len: self.elf_build_id_len as nat,
            elf_build_id: opt_view(self.elf_build_id),
        }
    }
}

/// Flattening an [`ApkElf`] record.
pub open spec fn marshal_apk_elf(v: ApkElfV) -> ApkElfFlatV {
    ApkElfFlatV {
        apk_path: cstr_of(v.apk_path),
        elf_path: cstr_of(v.elf_path),
        elf_build_id_len: len_of_opt(v.elf_build_id),
        elf_build_id: v.elf_build_id,
    }
}

/// Reconstructing an [`ApkElf`] record from its flat form.
pub open spec fn unmarshal_apk_elf(f: ApkElfFlatV) -> ApkElfV {
    ApkElfV {
        apk_path: path_of_cstr(f.apk_path),
        elf_path: path_of_cstr(f.elf_path),
        elf_build_id: f.elf_build_id,
    }
}

impl blaze_user_addr_meta_apk_elf {
    /// The paths are properly nul-terminated — exactly one NUL byte each,
    /// at the end — and the explicit length matches the build identifier.
    pub open spec fn wf(&self) -> bool {
        &&& self.apk_path@.len() >= 1 && self.apk_path@.last() == 0
        &&& self.elf_path@.len() >= 1 && self.elf_path@.last() == 0
        &&& nul_free(self.apk_path@.drop_last()) && nul_free(self.elf_path@.drop_last())
        &&& self.elf_build_id_len == len_of_opt(opt_view(self.elf_build_id))
    }

    /// Flatten an archive-embedded metadata record. A path holding a NUL
    /// byte has no faithful nul-terminated form and is refused.
    pub fn from(other: ApkElf) -> (r: blaze_user_addr_meta_apk_elf)
        requires
            nul_free(other.apk_path@),
            nul_free(other.elf_path@),
        ensures
            r@ == marshal_apk_elf(other@),
            r.wf(),
    {
        let ApkElf { apk_path, elf_path, elf_build_id } = other;
        let mut ap = apk_path;
        ap.push(0);
        let mut ep = elf_path;
        ep.push(0);
        let len = match &elf_build_id {
            Some(b) => b.len(),
            None => 0,
        };
        let r = blaze_user_addr_meta_apk_elf {
            apk_path: ap,
            elf_path: ep,
            elf_build_id_len: len,
            elf_build_id,
        };
        proof {
            assert(r.apk_path@.drop_last() =~= other.apk_path@);
            assert(r.elf_path@.drop_last() =~= other.elf_path@);
        }
        r
    }
}

impl ApkElf {
    /// Reconstruct an archive-embedded metadata record from its flat form.
    pub fn from(other: blaze_user_addr_meta_apk_elf) -> (r: ApkElf)
        ensures
            r@ == unmarshal_apk_elf(other@),
    {
        let blaze_user_addr_meta_apk_elf { apk_path, elf_path, elf_build_id_len, elf_build_id } =
            other;
        let _ = elf_build_id_len;
        let mut ap = apk_path;
        let _last = ap.pop();
        let mut ep = elf_path;
        let _last2 = ep.pop();
        let res = ApkElf { apk_path: ap, elf_path: ep, elf_build_id };
        proof {
            assert(res@.apk_path =~= unmarshal_apk_elf(other@).apk_path);
            assert(res@.elf_path =~= unmarshal_apk_elf(other@).elf_path);
        }
        res
    }
}

/// Mathematical value of a flat [`blaze_user_addr_meta_elf`].
pub struct ElfFlatV {
    /// Nul-terminated path.
    pub path: Seq<u8>,
    /// Explicit length of the build identifier, zero when absent.
    pub build_id_len: nat,
    /// The build identifier, if present.
    pub build_id: Option<Seq<u8>>,
}

/// Flat form of [`Elf`]: an owned nul-terminated path, and the build
/// identifier beside its explicit length.
#[derive(Clone, Debug, PartialEq, Eq)]
pub struct blaze_user_addr_meta_elf {
    /// The path to the binary, nul-terminated.
    pub path: Vec<u8>,
    /// The length of the build identifier, in bytes; zero when absent.
    pub build_id_len: usize,
    /// The build identifier of the binary, if found.
    pub build_id: Option<Vec<u8>>,
}

impl View for blaze_user_addr_meta_elf {
    type V = ElfFlatV;

    open spec fn view(&self) -> ElfFlatV {
        ElfFlatV {
            path: self.path@,
            build_id_len: self.build_id_len as nat,
            build_id: opt_view(self.build_id),
        }
    }
}

/// Flattening an [`Elf`] record.
pub open spec fn marshal_elf(v: ElfV) -> ElfFlatV {
    ElfFlatV {
        path: cstr_of(v.path),
        build_id_len: len_of_opt(v.build_id),
        build_id: v.build_id,
    }
}

/// Reconstructing an [`Elf`] record from its flat form.
pub open spec fn unmarshal_elf(f: ElfFlatV) -> ElfV {
    ElfV { path: path_of_cstr(f.path), build_id: f.build_id }
}

impl blaze_user_addr_meta_elf {
    /// The path is properly nul-terminated — exactly one NUL byte, at the
    /// end — and the explicit length matches the build identifier.
    pub open spec fn wf(&self) -> bool {
        &&& self.path@.len() >= 1 && self.path@.last() == 0
        &&& nul_free(self.path@.drop_last())
        &&& self.build_id_len == len_of_opt(opt_view(self.build_id))
    }

    /// Flatten a plain binary metadata record. A path holding a NUL byte
    /// has no faithful nul-terminated form and is refused.
    pub fn from(other: Elf) -> (r: blaze_user_addr_meta_elf)
        requires
            nul_free(other.path@),
        ensures
            r@ == marshal_elf(other@),
            r.wf(),
    {
        let Elf { path, build_id } = other;
        let mut p = path;
        p.push(0);
        let len = match &build_id {
            Some(b) => b.len(),
            None => 0,
        };
        let r = blaze_user_addr_meta_elf { path: p, build_id_len: len, build_id };
        proof {
            assert(r.path@.drop_last() =~= other.path@);
        }
        r
    }
}

impl Elf {
    /// Reconstruct a plain binary metadata record from its flat form.
    pub fn from(other: blaze_user_addr_meta_elf) -> (r: Elf)
        ensures
            r@ == unmarshal_elf(other@),
    {
        let blaze_user_addr_meta_elf { path, build_id_len, build_id } = other;
        let _ = build_id_len;
        let mut p = path;
        let _last = p.pop();
        let res = Elf { path: p, build_id };
        proof {
            assert(res@.path =~= unmarshal_elf(other@).path);
        }
        res
    }
}

/// Flat form of [`Unknown`]: a single reserved byte.
#[derive(Clone, Copy, Debug, PartialEq, Eq, Structural)]
pub struct blaze_user_addr_meta_unknown {
    /// This member is unused.
    pub _unused: u8,
}

impl blaze_user_addr_meta_unknown {
    /// Flatten an unknown-origin metadata record.
    pub fn from(other: Unknown) -> (r: blaze_user_addr_meta_unknown)
        ensures
            r._unused == 0,
    {
        let Unknown {  } = other;
        blaze_user_addr_meta_unknown { _unused: 0 }
    }
}

impl Unknown {
    /// Reconstruct an unknown-origin metadata record from its flat form.
    pub fn from(other: blaze_user_addr_meta_unknown) -> (r: Unknown)
        ensures
            r == (Unknown {  }),
    {
        let blaze_user_addr_meta_unknown { _unused } = other;
        let _ = _unused;
        Unknown {  }
    }
}

/// The live variant data of a flat metadata record. The raw boundary keeps
/// the three payloads in one untagged union; this library models that
/// closed set as an explicit sum and leaves the flattening to untagged
/// storage to the unverified plumbing outside it.
#[derive(Clone, Debug, PartialEq, Eq)]
pub enum blaze_user_addr_meta_variant {
    /// Valid on [`blaze_user_addr_meta_kind::BLAZE_USER_ADDR_APK_ELF`].
    ApkElf(blaze_user_addr_meta_apk_elf),
    /// Valid on [`blaze_user_addr_meta_kind::BLAZE_USER_ADDR_ELF`].
    Elf(blaze_user_addr_meta_elf),
    /// Valid on [`blaze_user_addr_meta_kind::BLAZE_USER_ADDR_UNKNOWN`].
    Unknown(blaze_user_addr_meta_unknown),
}

/// Mathematical value of a flat [`blaze_user_addr_meta`] record: the live
/// variant's value.
pub enum MetaFlatV {
    /// The archive-embedded variant.
    ApkElf(ApkElfFlatV),
    /// The plain binary variant.
    Elf(ElfFlatV),
    /// The unknown variant, carrying its reserved byte.
    Unknown(u8),
}

/// A flat metadata record: an explicit discriminant beside the one live
/// variant.
#[derive(Clone, Debug, PartialEq, Eq)]
pub struct blaze_user_addr_meta {
    /// The variant kind that is present.
    pub kind: blaze_user_addr_meta_kind,
    /// The actual variant with its data.
    pub variant: blaze_user_addr_meta_variant,
}

impl View for blaze_user_addr_meta {
    type V = MetaFlatV;

    open spec fn view(&self) -> MetaFlatV {
        match self.variant {
            blaze_user_addr_meta_variant::ApkElf(a) => MetaFlatV::ApkElf(a@),
            blaze_user_addr_meta_variant::Elf(e) => MetaFlatV::Elf(e@),
            blaze_user_addr_meta_variant::Unknown(u) => MetaFlatV::Unknown(u._unused),
        }
    }
}

/// Flattening a metadata record: the reserved byte of the unknown variant
/// is zero.
pub open spec fn marshal_meta(v: UserAddrMetaV) -> MetaFlatV {
    match v {
        UserAddrMetaV::ApkElf(a) => MetaFlatV::ApkElf(marshal_apk_elf(a)),
        UserAddrMetaV::Elf(e) => MetaFlatV::Elf(marshal_elf(e)),
        UserAddrMetaV::Unknown => MetaFlatV::Unknown(0),
    }
}

/// Reconstructing a metadata record from its flat form.
pub open spec fn unmarshal_meta(f: MetaFlatV) -> UserAddrMetaV {
    match f {
        MetaFlatV::ApkElf(a) => UserAddrMetaV::ApkElf(unmarshal_apk_elf(a)),
        MetaFlatV::Elf(e) => UserAddrMetaV::Elf(unmarshal_elf(e)),
        MetaFlatV::Unknown(_) => UserAddrMetaV::Unknown,
    }
}

impl blaze_user_addr_meta {
    /// The discriminant names the variant that is actually present, and
    /// that variant is well-formed.
    pub open spec fn wf(&self) -> bool {
        match self.variant {
            blaze_user_addr_meta_variant::ApkElf(a) => self.kind
                == blaze_user_addr_meta_kind::BLAZE_USER_ADDR_APK_ELF && a.wf(),
            blaze_user_addr_meta_variant::Elf(e) => self.kind
                == blaze_user_addr_meta_kind::BLAZE_USER_ADDR_ELF && e.wf(),
            blaze_user_addr_meta_variant::Unknown(_) => self.kind
                == blaze_user_addr_meta_kind::BLAZE_USER_ADDR_UNKNOWN,
        }
    }

    /// Flatten a metadata record, tagging the live variant. Paths holding a
    /// NUL byte are refused, as in the per-variant flattenings.
    pub fn from(other: UserAddrMeta) -> (r: blaze_user_addr_meta)
        requires
            meta_paths_nul_free(other@),
        ensures
            r@ == marshal_meta(other@),
            r.wf(),
    {
        match other {
            UserAddrMeta::ApkElf(apk_elf) => blaze_user_addr_meta {
                kind: blaze_user_addr_meta_kind::BLAZE_USER_ADDR_APK_ELF,
                variant: blaze_user_addr_meta_variant::ApkElf(
                    blaze_user_addr_meta_apk_elf::from(apk_elf),
                ),
            },
            UserAddrMeta::Elf(elf) => blaze_user_addr_meta {
                kind: blaze_user_addr_meta_kind::BLAZE_USER_ADDR_ELF,
                variant: blaze_user_addr_meta_variant::Elf(blaze_user_addr_meta_elf::from(elf)),
            },
            UserAddrMeta::Unknown(unknown) => blaze_user_addr_meta {
                kind: blaze_user_addr_meta_kind::BLAZE_USER_ADDR_UNKNOWN,
                variant: blaze_user_addr_meta_variant::Unknown(
                    blaze_user_addr_meta_unknown::from(unknown),
                ),
            },
        }
    }

    /// A copy of a flat metadata record.
    pub fn duplicate(&self) -> (r: blaze_user_addr_meta)
        ensures
            r@ == self@,
            r.kind == self.kind,
    {
        let kind = self.kind;
        let variant = match &self.variant {
            blaze_user_addr_meta_variant::ApkElf(a) => blaze_user_addr_meta_variant::ApkElf(
                blaze_user_addr_meta_apk_elf {
                    apk_path: bytes_dup(&a.apk_path),
                    elf_path: bytes_dup(&a.elf_path),
                    elf_build_id_len: a.elf_build_id_len,
                    elf_build_id: opt_bytes_dup(&a.elf_build_id),
                },
            ),
            blaze_user_addr_meta_variant::Elf(e) => blaze_user_addr_meta_variant::Elf(
                blaze_user_addr_meta_elf {
                    path: bytes_dup(&e.path),
                    build_id_len: e.build_id_len,
                    build_id: opt_bytes_dup(&e.build_id),
                },
            ),
            blaze_user_addr_meta_variant::Unknown(u) => blaze_user_addr_meta_variant::Unknown(
                blaze_user_addr_meta_unknown { _unused: u._unused },
            ),
        };
        blaze_user_addr_meta { kind, variant }
    }
}

impl UserAddrMeta {
    /// Reconstruct a metadata record from its flat form, dispatching on the
    /// live variant the discriminant names.
    pub fn from(other: blaze_user_addr_meta) -> (r: UserAddrMeta)
        requires
            other.wf(),
        ensures
            r@ == unmarshal_meta(other@),
    {
        match other.variant {
            blaze_user_addr_meta_variant::ApkElf(apk_elf) => UserAddrMeta::ApkElf(
                ApkElf::from(apk_elf),
            ),
            blaze_user_addr_meta_variant::Elf(elf) => UserAddrMeta::Elf(Elf::from(elf)),
            blaze_user_addr_meta_variant::Unknown(unknown) => UserAddrMeta::Unknown(
                Unknown::from(unknown),
            ),
        }
    }
}

/// The flat form of a whole normalization result: the metadata array with
/// its count, and the normalized-address array with its count.
#[derive(Clone, Debug, PartialEq, Eq)]
pub struct blaze_normalized_user_addrs {
    /// The number of records present in `metas`.
    pub meta_count: usize,
    /// The flat metadata records.
    pub metas: Vec<blaze_user_addr_meta>,
    /// The number of records present in `addrs`.
    pub addr_count: usize,
    /// The flat normalized addresses.
    pub addrs: Vec<blaze_normalized_addr>,
}

impl blaze_normalized_user_addrs {
    /// The counts match the arrays and every metadata record is
    /// well-formed.
    pub open spec fn wf(&self) -> bool {
        &&& self.meta_count == self.metas@.len()
        &&& self.addr_count == self.addrs@.len()
        &&& forall|i: int| 0 <= i < self.metas@.len() ==> (#[trigger] self.metas@[i]).wf()
    }

    /// Flatten a whole normalization result. Every metadata path must be
    /// free of NUL bytes; a caller that cannot guarantee this checks first
    /// and reports failure instead of producing a record.
    pub fn from(other: NormalizedUserAddrs) -> (r: blaze_normalized_user_addrs)
        requires
            forall|i: int|
                0 <= i < other.meta@.len() ==> meta_paths_nul_free((#[trigger] other.meta@[i])@),
        ensures
            r.wf(),
            r.meta_count == other.meta@.len(),
            r.addr_count == other.addrs@.len(),
            forall|i: int|
                0 <= i < other.meta@.len() ==> (#[trigger] r.metas@[i])@ == marshal_meta(
                    other.meta@[i]@,
                ),
            forall|i: int|
                0 <= i < other.addrs@.len() ==> (#[trigger] r.addrs@[i]).addr == other.addrs@[i].0
                    && r.addrs@[i].meta_idx == other.addrs@[i].1,
    {
        let mut metas: Vec<blaze_user_addr_meta> = Vec::new();
        let mut i: usize = 0;
        while i < other.meta.len()
            invariant
                i <= other.meta@.len(),
                metas@.len() == i,
                forall|k: int|
                    0 <= k < other.meta@.len() ==> meta_paths_nul_free(
                        (#[trigger] other.meta@[k])@,
                    ),
                forall|k: int|
                    0 <= k < i ==> (#[trigger] metas@[k])@ == marshal_meta(other.meta@[k]@)
                        && metas@[k].wf(),
            decreases other.meta@.len() - i,
        {
            let m = other.meta[i].duplicate();
            metas.push(blaze_user_addr_meta::from(m));
            i = i + 1;
        }
        let mut addrs: Vec<blaze_normalized_addr> = Vec::new();
        let mut k: usize = 0;
        while k < other.addrs.len()
            invariant
                k <= other.addrs@.len(),
                addrs@.len() == k,
                forall|q: int|
                    0 <= q < k ==> (#[trigger] addrs@[q]).addr == other.addrs@[q].0
                        && addrs@[q].meta_idx == other.addrs@[q].1,
            decreases other.addrs@.len() - k,
        {
            let t = other.addrs[k];
            addrs.push(blaze_normalized_addr::from(t));
            k = k + 1;
        }
        blaze_normalized_user_addrs {
            meta_count: metas.len(),
            metas,
            addr_count: addrs.len(),
            addrs,
        }
    }
}

impl NormalizedUserAddrs {
    /// Reconstruct a native normalization result from its flat form — the
    /// reverse walk a release operation performs before dropping.
    pub fn from(other: blaze_normalized_user_addrs) -> (r: NormalizedUserAddrs)
        requires
            other.wf(),
        ensures
            r.meta@.len() == other.metas@.len(),
            r.addrs@.len() == other.addrs@.len(),
            forall|i: int|
                0 <= i < other.metas@.len() ==> (#[trigger] r.meta@[i])@ == unmarshal_meta(
                    other.metas@[i]@,
                ),
            forall|i: int|
                0 <= i < other.addrs@.len() ==> (#[trigger] r.addrs@[i]).0 == other.addrs@[i].addr
                    && r.addrs@[i].1 == other.addrs@[i].meta_idx,
    {
        let mut meta: Vec<UserAddrMeta> = Vec::new();
        let mut i: usize = 0;
        while i < other.metas.len()
            invariant
                i <= other.metas@.len(),
                meta@.len() == i,
                forall|k: int| 0 <= k < other.metas@.len() ==> (#[trigger] other.metas@[k]).wf(),
                forall|k: int|
                    0 <= k < i ==> (#[trigger] meta@[k])@ == unmarshal_meta(other.metas@[k]@),
            decreases other.metas@.len() - i,
        {
            let m = other.metas[i].duplicate();
            proof {
                assert(m.wf());
            }
            meta.push(UserAddrMeta::from(m));
            i = i + 1;
        }
        let mut addrs: Vec<(Addr, usize)> = Vec::new();
        let mut k: usize = 0;
        while k < other.addrs.len()
            invariant
                k <= other.addrs@.len(),
                addrs@.len() == k,
                forall|q: int|
                    0 <= q < k ==> (#[trigger] addrs@[q]).0 == other.addrs@[q].addr && addrs@[q].1
                        == other.addrs@[q].meta_idx,
            decreases other.addrs@.len() - k,
        {
            let t = other.addrs[k];
            addrs.push((t.addr, t.meta_idx));
            k = k + 1;
        }
        NormalizedUserAddrs { addrs, meta }
    }
}

/// Law: flattening a plain binary metadata record and reconstructing it
/// yields the original value, empty paths and absent build identifiers
/// included.
pub proof fn lemma_elf_round_trip(v: ElfV)
    ensures
        unmarshal_elf(marshal_elf(v)) == v,
{
    assert(path_of_cstr(cstr_of(v.path)) =~= v.path);
}

/// Law: flattening an archive-embedded metadata record and reconstructing
/// it yields the original value.
pub proof fn lemma_apk_elf_round_trip(v: ApkElfV)
    ensures
        unmarshal_apk_elf(marshal_apk_elf(v)) == v,
{
    assert(path_of_cstr(cstr_of(v.apk_path)) =~= v.apk_path);
    assert(path_of_cstr(cstr_of(v.elf_path)) =~= v.elf_path);
}

/// Law: flattening any metadata record — of any of the three kinds — and
/// reconstructing it yields the original value.
pub proof fn lemma_meta_round_trip(v: UserAddrMetaV)
    ensures
        unmarshal_meta(marshal_meta(v)) == v,
{
    match v {
        UserAddrMetaV::ApkElf(a) => lemma_apk_elf_round_trip(a),
        UserAddrMetaV::Elf(e) => lemma_elf_round_trip(e),
        UserAddrMetaV::Unknown => {},
    }
}

} // verus!
