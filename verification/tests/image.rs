use x86::bootloader::{downloaded_image, load_resource, Bootloader, BootloaderLoad, FetchOptions, LoadStep, Resource};
use x86::error::X86Error;
use x86::image::{ascii_lowercase, sha256_check, trim_str, Image, ImageKind};
use x86::{native_capabilities, API_VERSION};

const ABC_SHA256: &str = "ba7816bf8f01cfea414140de5dae2223b00361a396177a9cb410ff61f20015ad";

#[test]
fn image_accessors() {
    let image = Image::from_bytes(ImageKind::Bios, "generated-bios".to_string(), vec![0u8; 64]);
    assert_eq!(image.kind(), ImageKind::Bios);
    assert_eq!(image.name(), "generated-bios");
    assert_eq!(image.len(), 64);
    assert!(!image.is_empty());
    assert_eq!(image.bytes(), &[0u8; 64][..]);
    assert_eq!(image.source(), None);
    let empty = Image::with_source(ImageKind::RawDisk, "disk.img".to_string(), vec![], "/tmp/disk.img".to_string());
    assert!(empty.is_empty());
    assert_eq!(empty.source(), Some("/tmp/disk.img"));
}

#[test]
fn sha256_of_known_input() {
    let image = Image::from_bytes(ImageKind::Other, "abc".to_string(), b"abc".to_vec());
    assert_eq!(image.sha256(), ABC_SHA256);
    let empty = Image::from_bytes(ImageKind::Other, "empty".to_string(), vec![]);
    assert_eq!(empty.sha256(), "e3b0c44298fc1c149afbf4c8996fb92427ae41e4649b934ca495991b7852b855");
}

#[test]
fn own_digest_verifies() {
    let image = Image::from_bytes(ImageKind::Kernel, "k".to_string(), vec![1, 2, 3]);
    let digest = image.sha256();
    assert!(image.verify_sha256(&digest).is_ok());
    // Surrounding white space and upper case are ignored.
    let loud = format!(" \t{}\n", digest.to_uppercase());
    assert!(image.verify_sha256(&loud).is_ok());
}

#[test]
fn digest_mismatch_is_reported() {
    let image = Image::from_bytes(ImageKind::Other, "abc".to_string(), b"abc".to_vec());
    match image.verify_sha256("  DEADBEEF ") {
        Err(X86Error::InvalidImage(m)) => {
            assert_eq!(m, format!("SHA-256 mismatch for abc: expected deadbeef, got {}", ABC_SHA256));
        }
        other => panic!("unexpected {:?}", other),
    }
}

#[test]
fn trimming_white_space() {
    assert_eq!(trim_str("  a b \n"), "a b");
    assert_eq!(trim_str("\u{3000}x\u{a0}"), "x");
    assert_eq!(trim_str("   "), "");
    assert_eq!(trim_str(""), "");
}

#[test]
fn resources_load_as_steps() {
    let options = FetchOptions::default();
    match load_resource(&Resource::bytes("mem".to_string(), vec![1, 2]), ImageKind::Bios, &options).unwrap() {
        LoadStep::Ready(image) => {
            assert_eq!(image.name(), "mem");
            assert_eq!(image.bytes(), &[1, 2]);
            assert_eq!(image.kind(), ImageKind::Bios);
        }
        _ => panic!("bytes load at once"),
    }
    assert!(matches!(
        load_resource(&Resource::file("bios.bin".to_string()), ImageKind::Bios, &options).unwrap(),
        LoadStep::ReadFile(p) if p == "bios.bin"
    ));
    assert!(matches!(
        load_resource(&Resource::url("https://example.org/b.bin".to_string()), ImageKind::Bios, &options).unwrap(),
        LoadStep::FetchUrl(u) if u == "https://example.org/b.bin"
    ));
    match load_resource(&Resource::url("ftp://example.org/b.bin".to_string()), ImageKind::Bios, &options) {
        Err(X86Error::Remote { url, message }) => {
            assert_eq!(url, "ftp://example.org/b.bin");
            assert_eq!(message, "only http:// and https:// URLs are supported");
        }
        _ => panic!("other schemes are refused"),
    }
}

#[test]
fn default_fetch_options() {
    let options = FetchOptions::default();
    assert_eq!(options.user_agent, "x86-native/0.1.1");
    assert_eq!(options.timeout_secs, 60);
}

#[test]
fn bootloader_loading() {
    match Bootloader::load(Resource::bytes("boot".to_string(), vec![0xEB, 0xFE])).unwrap() {
        BootloaderLoad::Loaded(b) => {
            assert_eq!(b.image.kind(), ImageKind::Bootloader);
            assert_eq!(b.image.bytes(), &[0xEB, 0xFE]);
        }
        _ => panic!("bytes load at once"),
    }
    assert!(matches!(
        Bootloader::from_file("boot.bin".to_string()).unwrap(),
        BootloaderLoad::ReadFile { path, .. } if path == "boot.bin"
    ));
    assert!(matches!(
        Bootloader::from_url("http://h/x".to_string()).unwrap(),
        BootloaderLoad::FetchUrl { url, .. } if url == "http://h/x"
    ));
    assert!(Bootloader::from_url("example.org/x".to_string()).is_err());
    let options = FetchOptions::default();
    assert!(matches!(
        Bootloader::load_with_options(Resource::url("https://h/".to_string()), &options).unwrap(),
        BootloaderLoad::FetchUrl { .. }
    ));
}

#[test]
fn downloaded_image_names() {
    let i = downloaded_image("https://example.org/path/bootloader.bin", ImageKind::Bootloader, vec![1]);
    assert_eq!(i.name(), "bootloader.bin");
    assert_eq!(i.bytes(), &[1]);
    let j = downloaded_image("https://example.org/", ImageKind::Bootloader, vec![]);
    assert_eq!(j.name(), "remote-bootloader");
    let k = downloaded_image("noslash", ImageKind::Other, vec![]);
    assert_eq!(k.name(), "noslash");
}

#[test]
fn error_messages() {
    let e = X86Error::Io { path: "a".to_string(), message: "gone".to_string() };
    assert_eq!(e.message(), "I/O error while accessing a: gone");
    assert_eq!(X86Error::InvalidImage("x".to_string()).message(), "invalid image: x");
    assert_eq!(X86Error::InvalidState("x".to_string()).message(), "invalid saved state: x");
    assert_eq!(X86Error::UnsupportedFormat("x".to_string()).message(), "unsupported format: x");
    assert_eq!(X86Error::RemoteDisabled.message(), "remote loading is disabled; enable the `remote` feature");
    let r = X86Error::Remote { url: "u".to_string(), message: "m".to_string() };
    assert_eq!(r.message(), "remote request failed for u: m");
    assert_eq!(X86Error::Serialization("x".to_string()).message(), "serialization error: x");
    assert_eq!(
        X86Error::BackendUnavailable("x".to_string()).message(),
        "operation is not available in the current backend: x"
    );
}

#[test]
fn capabilities_and_version() {
    let c = native_capabilities();
    assert_eq!(c.len(), 9);
    assert_eq!(c[0], "raw-image-memory");
    assert_eq!(c[8], "no-webassembly-runtime");
    assert_eq!(API_VERSION, "0.1.1");
}

#[test]
fn ascii_lowercase_maps_only_ascii_capitals() {
    assert_eq!(ascii_lowercase("BA78 16Bf"), "ba78 16bf");
    assert_eq!(ascii_lowercase("ÄÖ-XYZ"), "ÄÖ-xyz");
    assert_eq!(ascii_lowercase(""), "");
}

#[test]
fn sha256_check_compares_trimmed_lowercase_text() {
    assert!(sha256_check("bios", "  BA7816BF \n", "ba7816bf").is_ok());
    match sha256_check("bios", " ABC ", "abd") {
        Err(X86Error::InvalidImage(m)) => assert_eq!(m, "SHA-256 mismatch for bios: expected abc, got abd"),
        other => panic!("unexpected result: {:?}", other),
    }
}
