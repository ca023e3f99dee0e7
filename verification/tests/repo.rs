use nap::config::AsStrOrEmpty;
use nap::manifest::ManifestFacts;
use nap::repo::{
    lib_architecture, Architecture, ArtifactMetadata, Platform, RepoArtifact, RepoError,
    RepoRelease, RepoResource,
};
use nap::signing_block::ApkSignatureBlock;

fn names(list: &[&str]) -> Vec<Vec<u8>> {
    list.iter().map(|s| s.as_bytes().to_vec()).collect()
}

#[test]
fn single_architecture_is_detected() {
    let libs = names(&[
        "lib/arm64-v8a/libapp.so",
        "lib/arm64-v8a/libother.so",
        "classes.dex",
        "AndroidManifest.xml",
    ]);
    assert_eq!(lib_architecture(&libs), Ok(Architecture::ARM64));

    let libs = names(&["lib/armeabi-v7a/a.so"]);
    assert_eq!(lib_architecture(&libs), Ok(Architecture::ARMv7));
    let libs = names(&["lib/x86/a.so"]);
    assert_eq!(lib_architecture(&libs), Ok(Architecture::X86));
    let libs = names(&["lib/x86_64/a.so"]);
    assert_eq!(lib_architecture(&libs), Ok(Architecture::X86_64));
}

#[test]
fn mixed_architectures_are_ambiguous() {
    let libs = names(&["lib/arm64-v8a/a.so", "lib/x86/a.so"]);
    assert_eq!(
        lib_architecture(&libs),
        Err(RepoError::AmbiguousArchitecture)
    );
}

#[test]
fn no_library_paths_are_ambiguous() {
    let libs = names(&["classes.dex"]);
    assert_eq!(
        lib_architecture(&libs),
        Err(RepoError::AmbiguousArchitecture)
    );
}

#[test]
fn unknown_directory_is_refused() {
    let libs = names(&["lib/mips/a.so"]);
    assert_eq!(lib_architecture(&libs), Err(RepoError::UnknownArchitecture));
}

#[test]
fn platform_labels_render() {
    let p = Platform::Android {
        arch: Architecture::ARM64,
    };
    assert_eq!(p.render(), b"android-arm64-v8a".to_vec());
    let p = Platform::Android {
        arch: Architecture::ARMv7,
    };
    assert_eq!(p.render(), b"android-armeabi-v7a".to_vec());
    let p = Platform::MacOS {
        arch: Architecture::ARM64,
    };
    assert_eq!(p.render(), b"darwin-aarch64".to_vec());
    let p = Platform::IOS {
        arch: Architecture::X86,
    };
    assert_eq!(p.render(), b"ios-unknown".to_vec());
    assert_eq!(Platform::Web.render(), b"web".to_vec());
}

fn empty_facts() -> ManifestFacts {
    ManifestFacts {
        package: None,
        version_code: None,
        version_name: None,
        compile_sdk_version: None,
        compile_sdk_version_codename: None,
        platform_build_version_code: None,
        platform_build_version_name: None,
        min_sdk_version: None,
        target_sdk_version: None,
        max_sdk_version: None,
        theme: None,
        label: None,
        icon: None,
    }
}

fn apk_artifact(package: Option<&str>) -> RepoArtifact {
    let mut facts = empty_facts();
    facts.package = package.map(|p| p.as_bytes().to_vec());
    facts.version_code = Some(7);
    facts.version_name = Some(b"1.2.3".to_vec());
    RepoArtifact {
        name: "app-release.apk".to_string(),
        size: 1024,
        location: RepoResource::Local("app-release.apk".to_string()),
        content_type: "application/vnd.android.package-archive".to_string(),
        platform: Platform::Android {
            arch: Architecture::ARM64,
        },
        metadata: ArtifactMetadata::APK {
            manifest: facts,
            signature: ApkSignatureBlock::Unknown { data: Vec::new() },
        },
        hash: None,
    }
}

#[test]
fn app_id_takes_first_package() {
    let release = RepoRelease {
        version: "1.2.3".to_string(),
        description: None,
        url: None,
        artifacts: vec![
            apk_artifact(None),
            apk_artifact(Some("com.example.app")),
            apk_artifact(Some("com.other.app")),
        ],
    };
    assert_eq!(release.app_id(), Ok(b"com.example.app".to_vec()));
}

#[test]
fn app_id_missing_everywhere_fails() {
    let release = RepoRelease {
        version: "1.2.3".to_string(),
        description: None,
        url: None,
        artifacts: vec![apk_artifact(None)],
    };
    assert_eq!(release.app_id(), Err(RepoError::NoAppId));
}

#[test]
fn release_tag_joins_id_and_version() {
    let release = RepoRelease {
        version: "1.2.3".to_string(),
        description: None,
        url: None,
        artifacts: vec![apk_artifact(Some("com.example.app"))],
    };
    assert_eq!(release.release_tag(), Ok(b"com.example.app@1.2.3".to_vec()));
}

#[test]
fn artifact_summary_renders() {
    let a = apk_artifact(Some("com.example.app"));
    let text = String::from_utf8(a.render()).unwrap();
    assert_eq!(
        text,
        "app-release.apk platform=android-arm64-v8a \
         metadata=APK id=com.example.app, version=1.2.3, code=7, sig=unknown"
    );
}

#[test]
fn metadata_summary_uses_placeholders() {
    let a = apk_artifact(None);
    let mut facts = empty_facts();
    facts.package = None;
    let text = String::from_utf8(a.metadata.render()).unwrap();
    assert_eq!(text, "APK id=missing, version=1.2.3, code=7, sig=unknown");
}

#[test]
fn str_or_empty_borrows_or_defaults() {
    let s: Option<String> = Some("hello".to_string());
    assert_eq!(s.as_str_or_empty(), "hello");
    let n: Option<String> = None;
    assert_eq!(n.as_str_or_empty(), "");
}
