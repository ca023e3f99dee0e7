//! Release artifacts and the facts derived from them.
//!
//! An artifact is one binary of a release: its name, size, location,
//! platform and decoded APK metadata. A release groups artifacts under a
//! version. The logic here is pure: mapping library directory names to an
//! architecture, picking the application id out of a release, and
//! rendering the records for display. All fetching, hashing and archive
//! reading stays with the caller.

use vstd::prelude::*;
use vstd::slice::slice_to_vec;
use vstd::string::StringSliceAdditionalSpecFns;
use vstd::utf8::encode_utf8;
use crate::manifest::{ManifestFacts, FactsModel};
use crate::signing_block::{ApkSignatureBlock, BlockModel, spec_render_block};
use crate::text::{spec_udec, render_u32};

verus! {

broadcast use vstd::slice::axiom_spec_len;

/// A failure of the artifact logic.
#[derive(Debug, Clone, Copy, PartialEq, Eq, Structural)]
pub enum RepoError {
    /// No artifact of the release carries a manifest with a package id.
    NoAppId,
    /// The archive's library paths name zero or several architectures.
    AmbiguousArchitecture,
    /// The single library directory is not a known architecture.
    UnknownArchitecture,
}

/// A CPU architecture an Android artifact is built for.
#[derive(Debug, Clone, Copy, PartialEq, Eq, Structural)]
pub enum Architecture {
    ARMv7,
    ARM64,
    X86,
    X86_64,
}

/// The platform an artifact runs on.
#[derive(Debug, Clone, Copy, PartialEq, Eq, Structural)]
pub enum Platform {
    Android { arch: Architecture },
    IOS { arch: Architecture },
    MacOS { arch: Architecture },
    Windows { arch: Architecture },
    Linux { arch: Architecture },
    Web,
}

/// A local or remote location where an artifact lives. A local location
/// is kept as its path text.
#[derive(Debug, Clone)]
pub enum RepoResource {
    Remote(String),
    Local(String),
}

/// Mathematical model of an artifact location.
pub ghost enum ResourceModel {
    Remote(Seq<char>),
    Local(Seq<char>),
}

impl View for RepoResource {
    type V = ResourceModel;

    open spec fn view(&self) -> ResourceModel {
        match self {
            RepoResource::Remote(s) => ResourceModel::Remote(s@),
            RepoResource::Local(s) => ResourceModel::Local(s@),
        }
    }
}

/// Decoded metadata of an artifact: for an APK, its manifest facts and
/// its primary signing scheme.
#[derive(Debug, Clone)]
pub enum ArtifactMetadata {
    APK { manifest: ManifestFacts, signature: ApkSignatureBlock },
}

/// Mathematical model of artifact metadata.
pub ghost enum MetadataModel {
    APK { manifest: FactsModel, signature: BlockModel },
}

impl View for ArtifactMetadata {
    type V = MetadataModel;

    open spec fn view(&self) -> MetadataModel {
        match self {
            ArtifactMetadata::APK { manifest, signature } => MetadataModel::APK {
                manifest: manifest@,
                signature: signature@,
            },
        }
    }
}

/// One release artifact: a binary and what was derived from it.
#[derive(Debug, Clone)]
pub struct RepoArtifact {
    /// Artifact name (its file name).
    pub name: String,
    /// The size of the artifact in bytes.
    pub size: u64,
    /// Where the artifact is located.
    pub location: RepoResource,
    /// MIME type.
    pub content_type: String,
    /// The platform this artifact runs on.
    pub platform: Platform,
    /// Decoded artifact metadata.
    pub metadata: ArtifactMetadata,
    /// SHA-256 hash of the artifact, when one was computed.
    pub hash: Option<Vec<u8>>,
}

/// Mathematical model of one release artifact.
pub ghost struct ArtifactModel {
    pub name: Seq<char>,
    pub size: u64,
    pub location: ResourceModel,
    pub content_type: Seq<char>,
    pub platform: Platform,
    pub metadata: MetadataModel,
    pub hash: Option<Seq<u8>>,
}

impl View for RepoArtifact {
    type V = ArtifactModel;

    open spec fn view(&self) -> ArtifactModel {
        ArtifactModel {
            name: self.name@,
            size: self.size,
            location: self.location@,
            content_type: self.content_type@,
            platform: self.platform,
            metadata: self.metadata@,
            hash: match self.hash {
                None => None,
                Some(h) => Some(h@),
            },
        }
    }
}

/// The models of a vector of artifacts.
pub open spec fn artifacts_view(v: Seq<RepoArtifact>) -> Seq<ArtifactModel> {
    v.map_values(|a: RepoArtifact| a@)
}

/// A single release with one or more artifacts. The version is kept as
/// its text.
#[derive(Debug, Clone)]
pub struct RepoRelease {
    /// Release version text.
    pub version: String,
    /// Release changelog or notes.
    pub description: Option<String>,
    /// URL of the release page.
    pub url: Option<String>,
    /// The artifacts of this release.
    pub artifacts: Vec<RepoArtifact>,
}

// ------------------------------------------------------------------
// Rendering
// ------------------------------------------------------------------

/// The rendered name of an architecture, as Android library directories
/// spell it.
pub open spec fn spec_render_arch(a: Architecture) -> Seq<u8> {
    match a {
        Architecture::ARMv7 => "armeabi-v7a".spec_bytes(),
        Architecture::ARM64 => "arm64-v8a".spec_bytes(),
        Architecture::X86 => "x86".spec_bytes(),
        Architecture::X86_64 => "x86_64".spec_bytes(),
    }
}

impl Architecture {
    /// Renders the architecture name as UTF-8 text.
    pub fn render(&self) -> (r: Vec<u8>)
        ensures
            r@ == spec_render_arch(*self),
    {
        match self {
            Architecture::ARMv7 => slice_to_vec("armeabi-v7a".as_bytes()),
            Architecture::ARM64 => slice_to_vec("arm64-v8a".as_bytes()),
            Architecture::X86 => slice_to_vec("x86".as_bytes()),
            Architecture::X86_64 => slice_to_vec("x86_64".as_bytes()),
        }
    }
}

/// The rendered platform label: the platform name and the architecture
/// spelling that platform uses.
pub open spec fn spec_render_platform(p: Platform) -> Seq<u8> {
    match p {
        Platform::Android { arch } => "android-".spec_bytes() + spec_render_arch(arch),
        Platform::IOS { arch } => match arch {
            Architecture::ARM64 => "ios-arm64".spec_bytes(),
            _ => "ios-unknown".spec_bytes(),
        },
        Platform::MacOS { arch } => match arch {
            Architecture::ARM64 => "darwin-aarch64".spec_bytes(),
            Architecture::X86 => "darwin-x86".spec_bytes(),
            Architecture::X86_64 => "darwin-x86_64".spec_bytes(),
            _ => "darwin-unknown".spec_bytes(),
        },
        Platform::Windows { arch } => match arch {
            Architecture::ARM64 => "windows-aarch64".spec_bytes(),
            Architecture::X86 => "windows-x86".spec_bytes(),
            Architecture::X86_64 => "windows-x86_64".spec_bytes(),
            _ => "windows-unknown".spec_bytes(),
        },
        Platform::Linux { arch } => match arch {
            Architecture::ARM64 => "linux-aarch64".spec_bytes(),
            Architecture::X86 => "linux-x86".spec_bytes(),
            Architecture::X86_64 => "linux-x86_64".spec_bytes(),
            _ => "linux-unknown".spec_bytes(),
        },
        Platform::Web => "web".spec_bytes(),
    }
}

impl Platform {
    /// Renders the platform label as UTF-8 text.
    pub fn render(&self) -> (r: Vec<u8>)
        ensures
            r@ == spec_render_platform(*self),
    {
        match self {
            Platform::Android { arch } => {
                let mut out = slice_to_vec("android-".as_bytes());
                let mut tail = arch.render();
                out.append(&mut tail);
                out
            },
            Platform::IOS { arch } => match arch {
                Architecture::ARM64 => slice_to_vec("ios-arm64".as_bytes()),
                _ => slice_to_vec("ios-unknown".as_bytes()),
            },
            Platform::MacOS { arch } => match arch {
                Architecture::ARM64 => slice_to_vec("darwin-aarch64".as_bytes()),
                Architecture::X86 => slice_to_vec("darwin-x86".as_bytes()),
                Architecture::X86_64 => slice_to_vec("darwin-x86_64".as_bytes()),
                _ => slice_to_vec("darwin-unknown".as_bytes()),
            },
            Platform::Windows { arch } => match arch {
                Architecture::ARM64 => slice_to_vec("windows-aarch64".as_bytes()),
                Architecture::X86 => slice_to_vec("windows-x86".as_bytes()),
                Architecture::X86_64 => slice_to_vec("windows-x86_64".as_bytes()),
                _ => slice_to_vec("windows-unknown".as_bytes()),
            },
            Platform::Linux { arch } => match arch {
                Architecture::ARM64 => slice_to_vec("linux-aarch64".as_bytes()),
                Architecture::X86 => slice_to_vec("linux-x86".as_bytes()),
                Architecture::X86_64 => slice_to_vec("linux-x86_64".as_bytes()),
                _ => slice_to_vec("linux-unknown".as_bytes()),
            },
            Platform::Web => slice_to_vec("web".as_bytes()),
        }
    }
}

/// The rendered metadata summary: the package id (or a placeholder), the
/// version name (or nothing), the version code (or zero) and the
/// signature summary.
pub open spec fn spec_render_metadata(m: MetadataModel) -> Seq<u8> {
    match m {
        MetadataModel::APK { manifest, signature } => "APK id=".spec_bytes() + (match manifest.package {
            Some(p) => p,
            None => "missing".spec_bytes(),
        }) + ", version=".spec_bytes() + (match manifest.version_name {
            Some(v) => v,
            None => Seq::empty(),
        }) + ", code=".spec_bytes() + spec_udec(
            match manifest.version_code {
                Some(c) => c as int,
                None => 0,
            },
        ) + ", sig=".spec_bytes() + spec_render_block(signature),
    }
}

impl ArtifactMetadata {
    /// Renders the metadata summary as UTF-8 text.
    pub fn render(&self) -> (r: Vec<u8>)
        ensures
            r@ == spec_render_metadata(self@),
    {
        match self {
            ArtifactMetadata::APK { manifest, signature } => {
                let mut out = slice_to_vec("APK id=".as_bytes());
                let mut part = match &manifest.package {
                    Some(p) => slice_to_vec(p.as_slice()),
                    None => slice_to_vec("missing".as_bytes()),
                };
                out.append(&mut part);
                let mut part = slice_to_vec(", version=".as_bytes());
                out.append(&mut part);
                let mut part = match &manifest.version_name {
                    Some(v) => slice_to_vec(v.as_slice()),
                    None => Vec::new(),
                };
                out.append(&mut part);
                let mut part = slice_to_vec(", code=".as_bytes());
                out.append(&mut part);
                let mut part = match manifest.version_code {
                    Some(c) => render_u32(c),
                    None => render_u32(0),
                };
                out.append(&mut part);
                let mut part = slice_to_vec(", sig=".as_bytes());
                out.append(&mut part);
                let mut part = signature.render();
                out.append(&mut part);
                assert(out@ =~= spec_render_metadata(self@));
                out
            },
        }
    }
}

/// The rendered artifact summary: its name, platform and metadata.
pub open spec fn spec_render_artifact(a: ArtifactModel) -> Seq<u8> {
    encode_utf8(a.name) + " platform=".spec_bytes() + spec_render_platform(a.platform)
        + " metadata=".spec_bytes() + spec_render_metadata(a.metadata)
}

impl RepoArtifact {
    /// Renders the artifact summary as UTF-8 text.
    pub fn render(&self) -> (r: Vec<u8>)
        ensures
            r@ == spec_render_artifact(self@),
    {
        let mut out = slice_to_vec(self.name.as_str().as_bytes());
        let mut part = slice_to_vec(" platform=".as_bytes());
        out.append(&mut part);
        let mut part = self.platform.render();
        out.append(&mut part);
        let mut part = slice_to_vec(" metadata=".as_bytes());
        out.append(&mut part);
        let mut part = self.metadata.render();
        out.append(&mut part);
        assert(out@ =~= spec_render_artifact(self@));
        out
    }
}

// ------------------------------------------------------------------
// Release facts
// ------------------------------------------------------------------

/// The application id of a release: the package id of the first artifact
/// whose manifest carries one; an error when none does.
pub open spec fn spec_app_id(arts: Seq<ArtifactModel>) -> Result<Seq<u8>, RepoError>
    decreases arts.len(),
{
    if arts.len() == 0 {
        Err(RepoError::NoAppId)
    } else {
        match arts[0].metadata {
            MetadataModel::APK { manifest, .. } => match manifest.package {
                Some(p) => Ok(p),
                None => spec_app_id(arts.skip(1)),
            },
        }
    }
}

/// The release tag: the application id, `@`, and the version text.
pub open spec fn spec_release_tag(r: Result<Seq<u8>, RepoError>, version: Seq<char>) -> Result<
    Seq<u8>,
    RepoError,
> {
    match r {
        Err(e) => Err(e),
        Ok(id) => Ok(id + "@".spec_bytes() + encode_utf8(version)),
    }
}

impl RepoRelease {
    /// The application id of this release: the package id of the first
    /// artifact whose manifest carries one.
    pub fn app_id(&self) -> (r: Result<Vec<u8>, RepoError>)
        ensures
            match r {
                Ok(id) => spec_app_id(artifacts_view(self.artifacts@)) == Ok::<_, RepoError>(id@),
                Err(e) => spec_app_id(artifacts_view(self.artifacts@)) == Err::<Seq<u8>, _>(e),
            },
    {
        let ghost arts = artifacts_view(self.artifacts@);
        let n = self.artifacts.len();
        let mut i: usize = 0;
        assert(arts.skip(0) =~= arts);
        while i < n
            invariant
                i <= n,
                n == self.artifacts@.len(),
                arts == artifacts_view(self.artifacts@),
                spec_app_id(arts) == spec_app_id(arts.skip(i as int)),
            decreases n - i,
        {
            assert(arts.skip(i as int)[0] == arts[i as int]);
            let a = &self.artifacts[i];
            match &a.metadata {
                ArtifactMetadata::APK { manifest, .. } => {
                    match &manifest.package {
                        Some(p) => {
                            let id = slice_to_vec(p.as_slice());
                            return Ok(id);
                        },
                        None => {},
                    }
                },
            }
            assert(arts.skip(i as int).skip(1) =~= arts.skip(i + 1));
            i = i + 1;
        }
        assert(arts.skip(n as int).len() == 0);
        Err(RepoError::NoAppId)
    }

    /// The release tag `{app_id}@{version}`, as UTF-8 text.
    pub fn release_tag(&self) -> (r: Result<Vec<u8>, RepoError>)
        ensures
            match r {
                Ok(tag) => spec_release_tag(
                    spec_app_id(artifacts_view(self.artifacts@)),
                    self.version@,
                ) == Ok::<_, RepoError>(tag@),
                Err(e) => spec_release_tag(
                    spec_app_id(artifacts_view(self.artifacts@)),
                    self.version@,
                ) == Err::<Seq<u8>, _>(e),
            },
    {
        let mut tag = match self.app_id() {
            Ok(id) => id,
            Err(e) => {
                return Err(e);
            },
        };
        let mut part = slice_to_vec("@".as_bytes());
        tag.append(&mut part);
        let mut part = slice_to_vec(self.version.as_str().as_bytes());
        tag.append(&mut part);
        Ok(tag)
    }
}

// ------------------------------------------------------------------
// Architecture detection
// ------------------------------------------------------------------

/// The path starts with the library prefix `lib/`.
pub open spec fn spec_is_lib_prefix(name: Seq<u8>) -> bool {
    &&& name.len() >= 4
    &&& name[0] == 0x6cu8
    &&& name[1] == 0x69u8
    &&& name[2] == 0x62u8
    &&& name[3] == 0x2fu8
}

/// The library directory named in an archive entry path: for a path of
/// the form `lib/<dir>/...`, the `<dir>` segment (repeated separators
/// skipped); nothing for any other path.
pub open spec fn spec_lib_dir(name: Seq<u8>) -> Option<Seq<u8>> {
    if spec_is_lib_prefix(name) {
        spec_segment(name.skip(4))
    } else {
        None
    }
}

/// The first path segment of `s`: leading separators skipped, then the
/// bytes up to the next separator or the end; nothing when no segment
/// remains.
pub open spec fn spec_segment(s: Seq<u8>) -> Option<Seq<u8>>
    decreases s.len(),
{
    if s.len() == 0 {
        None
    } else if s[0] == 0x2fu8 {
        spec_segment(s.skip(1))
    } else {
        Some(spec_take_until_slash(s))
    }
}

/// The bytes of `s` before its first separator.
pub open spec fn spec_take_until_slash(s: Seq<u8>) -> Seq<u8>
    decreases s.len(),
{
    if s.len() == 0 || s[0] == 0x2fu8 {
        Seq::empty()
    } else {
        seq![s[0]] + spec_take_until_slash(s.skip(1))
    }
}

/// The library directories named by the archive entry paths, in order,
/// with non-library paths dropped.
pub open spec fn spec_lib_dirs(names: Seq<Seq<u8>>) -> Seq<Seq<u8>>
    decreases names.len(),
{
    if names.len() == 0 {
        Seq::empty()
    } else {
        let rest = spec_lib_dirs(names.skip(1));
        match spec_lib_dir(names[0]) {
            None => rest,
            Some(d) => seq![d] + rest,
        }
    }
}

/// The architecture a library directory names, if any.
pub open spec fn spec_arch_of_dir(d: Seq<u8>) -> Option<Architecture> {
    if d == "arm64-v8a".spec_bytes() {
        Some(Architecture::ARM64)
    } else if d == "armeabi-v7a".spec_bytes() {
        Some(Architecture::ARMv7)
    } else if d == "x86_64".spec_bytes() {
        Some(Architecture::X86_64)
    } else if d == "x86".spec_bytes() {
        Some(Architecture::X86)
    } else {
        None
    }
}

/// The architecture an archive's entry paths determine: all library
/// paths must name one and the same directory, and that directory must
/// be a known architecture.
pub open spec fn spec_lib_architecture(names: Seq<Seq<u8>>) -> Result<Architecture, RepoError> {
    let dirs = spec_lib_dirs(names);
    if dirs.len() == 0 || exists|i: int| 0 <= i < dirs.len() && #[trigger] dirs[i] != dirs[0] {
        Err(RepoError::AmbiguousArchitecture)
    } else {
        match spec_arch_of_dir(dirs[0]) {
            Some(a) => Ok(a),
            None => Err(RepoError::UnknownArchitecture),
        }
    }
}

fn starts_with_lib(name: &[u8]) -> (r: bool)
    ensures
        r == spec_is_lib_prefix(name@),
{
    let n = name.len();
    if n < 4 {
        return false;
    }
    name[0] == 0x6c && name[1] == 0x69 && name[2] == 0x62 && name[3] == 0x2f
}

fn segment_of(s: &[u8], from: usize) -> (r: Option<Vec<u8>>)
    requires
        from <= s@.len(),
    ensures
        match r {
            Some(d) => spec_segment(s@.skip(from as int)) == Some(d@),
            None => spec_segment(s@.skip(from as int)) is None,
        },
    decreases s@.len() - from,
{
    let n = s.len();
    if from == n {
        return None;
    }
    assert(s@.skip(from as int)[0] == s@[from as int]);
    if s[from] == 0x2f {
        assert(s@.skip(from as int).skip(1) =~= s@.skip(from + 1));
        return segment_of(s, from + 1);
    }
    let mut end: usize = from;
    while end < n && s[end] != 0x2f
        invariant
            from <= end <= n,
            n == s@.len(),
            forall|j: int| from <= j < end ==> s@[j] != 0x2fu8,
        decreases n - end,
    {
        end = end + 1;
    }
    let d = crate::tlv::copy_range(s, from, end);
    proof {
        lemma_take_until_slash(s@, from as int, end as int);
    }
    Some(d)
}

proof fn lemma_take_until_slash(s: Seq<u8>, from: int, end: int)
    requires
        0 <= from <= end <= s.len(),
        forall|j: int| from <= j < end ==> s[j] != 0x2fu8,
        end == s.len() || s[end] == 0x2fu8,
    ensures
        spec_take_until_slash(s.skip(from)) == s.subrange(from, end),
    decreases end - from,
{
    let t = s.skip(from);
    if from == end {
        assert(t.len() == 0 || t[0] == 0x2fu8);
        assert(s.subrange(from, end) =~= Seq::<u8>::empty());
    } else {
        assert(t[0] == s[from]);
        assert(t.skip(1) =~= s.skip(from + 1));
        lemma_take_until_slash(s, from + 1, end);
        assert(seq![s[from]] + s.subrange(from + 1, end) =~= s.subrange(from, end));
    }
}

fn lib_dir_of(name: &[u8]) -> (r: Option<Vec<u8>>)
    ensures
        match r {
            Some(d) => spec_lib_dir(name@) == Some(d@),
            None => spec_lib_dir(name@) is None,
        },
{
    if !starts_with_lib(name) {
        return None;
    }
    segment_of(name, 4)
}

fn arch_of_dir(d: &[u8]) -> (r: Option<Architecture>)
    ensures
        r == spec_arch_of_dir(d@),
{
    if bytes_eq_slices(d, "arm64-v8a".as_bytes()) {
        Some(Architecture::ARM64)
    } else if bytes_eq_slices(d, "armeabi-v7a".as_bytes()) {
        Some(Architecture::ARMv7)
    } else if bytes_eq_slices(d, "x86_64".as_bytes()) {
        Some(Architecture::X86_64)
    } else if bytes_eq_slices(d, "x86".as_bytes()) {
        Some(Architecture::X86)
    } else {
        None
    }
}

fn bytes_eq_slices(a: &[u8], b: &[u8]) -> (r: bool)
    ensures
        r == (a@ == b@),
{
    let n = a.len();
    if n != b.len() {
        assert(a@.len() != b@.len());
        return false;
    }
    let mut i: usize = 0;
    while i < n
        invariant
            i <= n,
            n == a@.len() == b@.len(),
            forall|j: int| 0 <= j < i ==> a@[j] == b@[j],
        decreases n - i,
    {
        if a[i] != b[i] {
            return false;
        }
        i = i + 1;
    }
    assert(a@ =~= b@);
    true
}

/// Determines the artifact's architecture from the archive entry paths:
/// every `lib/<dir>/...` path must name one and the same directory, and
/// that directory must spell a known architecture.
pub fn lib_architecture(names: &Vec<Vec<u8>>) -> (r: Result<Architecture, RepoError>)
    ensures
        match r {
            Ok(a) => spec_lib_architecture(crate::tlv::seqs_view(names@)) == Ok::<_, RepoError>(a),
            Err(e) => spec_lib_architecture(crate::tlv::seqs_view(names@)) == Err::<
                Architecture,
                _,
            >(e),
        },
{
    let ghost ns = crate::tlv::seqs_view(names@);
    let ghost all_dirs = spec_lib_dirs(ns);
    let n = names.len();
    let mut i: usize = 0;
    let mut first: Option<Vec<u8>> = None;
    let ghost mut seen: int = 0;
    assert(ns.skip(0) =~= ns);
    while i < n
        invariant
            i <= n,
            n == names@.len(),
            ns == crate::tlv::seqs_view(names@),
            all_dirs == spec_lib_dirs(ns),
            0 <= seen <= all_dirs.len(),
            all_dirs =~= all_dirs.take(seen) + spec_lib_dirs(ns.skip(i as int)),
            match first {
                None => seen == 0,
                Some(f) => {
                    &&& seen > 0
                    &&& f@ == all_dirs[0]
                    &&& forall|j: int| 0 <= j < seen ==> #[trigger] all_dirs[j] == all_dirs[0]
                },
            },
        decreases n - i,
    {
        assert(ns.skip(i as int)[0] == ns[i as int]);
        let d = lib_dir_of(names[i].as_slice());
        proof {
            assert(ns.skip(i as int).skip(1) =~= ns.skip(i + 1));
        }
        match d {
            None => {},
            Some(d) => {
                proof {
                    assert(all_dirs[seen] == d@);
                }
                match &first {
                    None => {
                        proof {
                            seen = seen + 1;
                        }
                        first = Some(d);
                    },
                    Some(f) => {
                        if !bytes_eq_slices(f.as_slice(), d.as_slice()) {
                            proof {
                                assert(all_dirs[seen] != all_dirs[0]);
                            }
                            return Err(RepoError::AmbiguousArchitecture);
                        }
                        proof {
                            seen = seen + 1;
                        }
                    },
                }
            },
        }
        i = i + 1;
    }
    proof {
        assert(spec_lib_dirs(ns.skip(n as int)).len() == 0);
        assert(all_dirs =~= all_dirs.take(seen));
        assert(seen == all_dirs.len());
    }
    match first {
        None => {
            assert(all_dirs.len() == 0);
            Err(RepoError::AmbiguousArchitecture)
        },
        Some(f) => {
            assert(forall|j: int| 0 <= j < all_dirs.len() ==> #[trigger] all_dirs[j] == all_dirs[0]);
            match arch_of_dir(f.as_slice()) {
                Some(a) => Ok(a),
                None => Err(RepoError::UnknownArchitecture),
            }
        },
    }
}

} // verus!
