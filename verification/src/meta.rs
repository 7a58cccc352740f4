//! Provenance metadata for normalized addresses.
//!
//! Each normalized address is attributed to one of three mutually exclusive
//! kinds of origin: a plain on-disk binary, a binary embedded inside an
//! archive/package, or nothing at all (the address lay outside every
//! file-backed region). Paths are carried as raw bytes, as the operating
//! system hands them out; build identifiers are raw bytes, not hex-encoded.

use vstd::prelude::*;

verus! {

/// The mathematical value of an optional byte string.
pub open spec fn opt_view(v: Option<Vec<u8>>) -> Option<Seq<u8>> {
    match v {
        Some(x) => Some(x@),
        None => None,
    }
}

/// Mathematical value of an [`Elf`] metadata record.
pub struct ElfV {
    /// The path to the binary.
    pub path: Seq<u8>,
    /// The build identifier, if one was found.
    pub build_id: Option<Seq<u8>>,
}

/// Mathematical value of an [`ApkElf`] metadata record.
pub struct ApkElfV {
    /// The absolute path to the archive.
    pub apk_path: Seq<u8>,
    /// The relative path of the member binary inside the archive.
    pub elf_path: Seq<u8>,
    /// The member binary's build identifier, if one was found.
    pub elf_build_id: Option<Seq<u8>>,
}

/// Mathematical value of a [`UserAddrMeta`] record.
pub enum UserAddrMetaV {
    /// The address belongs to a binary embedded inside an archive.
    ApkElf(ApkElfV),
    /// The address belongs to an on-disk binary.
    Elf(ElfV),
    /// The address could not be attributed to any file-backed region.
    Unknown,
}

/// Metadata for an address that could not be attributed to any file-backed
/// region.
#[derive(Clone, Debug, PartialEq, Eq)]
pub struct Unknown {}

/// Metadata for an address belonging to an on-disk binary.
#[derive(Clone, Debug, PartialEq, Eq)]
pub struct Elf {
    /// The path to the binary.
    pub path: Vec<u8>,
    /// The build identifier, if one was found.
    pub build_id: Option<Vec<u8>>,
}

impl View for Elf {
    type V = ElfV;

    open spec fn view(&self) -> ElfV {
        ElfV { path: self.path@, build_id: opt_view(self.build_id) }
    }
}

/// Metadata for an address belonging to a binary embedded inside an
/// archive/package.
#[derive(Clone, Debug, PartialEq, Eq)]
pub struct ApkElf {
    /// The canonical absolute path to the archive, including its name.
    pub apk_path: Vec<u8>,
    /// The relative path to the member binary inside the archive.
    pub elf_path: Vec<u8>,
    /// The member binary's build identifier, if one was found.
    pub elf_build_id: Option<Vec<u8>>,
}

impl View for ApkElf {
    type V = ApkElfV;

    open spec fn view(&self) -> ApkElfV {
        ApkElfV {
            apk_path: self.apk_path@,
            elf_path: self.elf_path@,
            elf_build_id: opt_view(self.elf_build_id),
        }
    }
}

/// Metadata about the origin of a normalized address: exactly one variant is
/// live per instance.
#[derive(Clone, Debug, PartialEq, Eq)]
pub enum UserAddrMeta {
    /// The address belongs to a binary embedded inside an archive.
    ApkElf(ApkElf),
    /// The address belongs to an on-disk binary.
    Elf(Elf),
    /// The address could not be attributed to any file-backed region.
    Unknown(Unknown),
}

impl View for UserAddrMeta {
    type V = UserAddrMetaV;

    open spec fn view(&self) -> UserAddrMetaV {
        match *self {
            UserAddrMeta::ApkElf(a) => UserAddrMetaV::ApkElf(a@),
            UserAddrMeta::Elf(e) => UserAddrMetaV::Elf(e@),
            UserAddrMeta::Unknown(_) => UserAddrMetaV::Unknown,
        }
    }
}

/// Byte-for-byte comparison of two byte strings.
pub fn bytes_eq(a: &Vec<u8>, b: &Vec<u8>) -> (r: bool)
    ensures
        r == (a@ == b@),
{
    if a.len() != b.len() {
        proof {
            assert(a@ != b@);
        }
        return false;
    }
    let mut i: usize = 0;
    while i < a.len()
        invariant
            a@.len() == b@.len(),
            i <= a@.len(),
            forall|j: int| 0 <= j < i ==> a@[j] == b@[j],
        decreases a@.len() - i,
    {
        if a[i] != b[i] {
            return false;
        }
        i = i + 1;
    }
    proof {
        assert(a@ =~= b@);
    }
    true
}

/// Comparison of two optional byte strings.
pub fn opt_bytes_eq(a: &Option<Vec<u8>>, b: &Option<Vec<u8>>) -> (r: bool)
    ensures
        r == (opt_view(*a) == opt_view(*b)),
{
    match (a, b) {
        (Some(x), Some(y)) => bytes_eq(x, y),
        (None, None) => true,
        _ => false,
    }
}

/// A copy of a byte string.
pub fn bytes_dup(v: &Vec<u8>) -> (r: Vec<u8>)
    ensures
        r@ == v@,
{
    let mut r: Vec<u8> = Vec::new();
    let mut i: usize = 0;
    while i < v.len()
        invariant
            i <= v@.len(),
            r@ == v@.subrange(0, i as int),
        decreases v@.len() - i,
    {
        let b = v[i];
        r.push(b);
        proof {
            assert(v@.subrange(0, i + 1 as int) =~= v@.subrange(0, i as int).push(v@[i as int]));
        }
        i = i + 1;
    }
    proof {
        assert(r@ =~= v@);
    }
    r
}

/// A copy of an optional byte string.
pub fn opt_bytes_dup(v: &Option<Vec<u8>>) -> (r: Option<Vec<u8>>)
    ensures
        opt_view(r) == opt_view(*v),
{
    match v {
        Some(x) => Some(bytes_dup(x)),
        None => None,
    }
}

impl UserAddrMeta {
    /// Structural equality of two metadata records.
    pub fn meta_eq(&self, other: &UserAddrMeta) -> (r: bool)
        ensures
            r == (self@ == other@),
    {
        match (self, other) {
            (UserAddrMeta::ApkElf(a), UserAddrMeta::ApkElf(b)) => {
                bytes_eq(&a.apk_path, &b.apk_path) && bytes_eq(&a.elf_path, &b.elf_path)
                    && opt_bytes_eq(&a.elf_build_id, &b.elf_build_id)
            },
            (UserAddrMeta::Elf(a), UserAddrMeta::Elf(b)) => {
                bytes_eq(&a.path, &b.path) && opt_bytes_eq(&a.build_id, &b.build_id)
            },
            (UserAddrMeta::Unknown(_), UserAddrMeta::Unknown(_)) => true,
            _ => false,
        }
    }

    /// A copy of a metadata record.
    pub fn duplicate(&self) -> (r: UserAddrMeta)
        ensures
            r@ == self@,
    {
        match self {
            UserAddrMeta::ApkElf(a) => UserAddrMeta::ApkElf(
                ApkElf {
                    apk_path: bytes_dup(&a.apk_path),
                    elf_path: bytes_dup(&a.elf_path),
                    elf_build_id: opt_bytes_dup(&a.elf_build_id),
                },
            ),
            UserAddrMeta::Elf(e) => UserAddrMeta::Elf(
                Elf {
                    path: bytes_dup(&e.path),
                    build_id: opt_bytes_dup(&e.build_id),
                },
            ),
            UserAddrMeta::Unknown(_) => UserAddrMeta::Unknown(Unknown {}),
        }
    }
}

} // verus!
