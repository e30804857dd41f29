use installer_probe::file_analyser::{classify_extension, fallback_installer_type, DispatchKind};
use installer_probe::installers::block::deblock;
use installer_probe::installers::crc32::crc32_of;
use installer_probe::manifest::InstallerType;

#[test]
fn extension_dispatch_covers_the_known_set() {
    assert_eq!(classify_extension("msi"), Some(DispatchKind::Msi));
    assert_eq!(classify_extension("MSI"), Some(DispatchKind::Msi));
    assert_eq!(classify_extension("msix"), Some(DispatchKind::Msix));
    assert_eq!(classify_extension("appx"), Some(DispatchKind::Msix));
    assert_eq!(classify_extension("msixbundle"), Some(DispatchKind::MsixBundle));
    assert_eq!(classify_extension("appxbundle"), Some(DispatchKind::MsixBundle));
    assert_eq!(classify_extension("zip"), Some(DispatchKind::Zip));
    assert_eq!(classify_extension("Exe"), Some(DispatchKind::Exe));
    assert_eq!(classify_extension("dmg"), None);
    assert_eq!(classify_extension(""), None);
}

#[test]
fn version_info_keywords_classify_executables() {
    let entries = vec![
        ("FileDescription".to_string(), "Acme Setup Wizard".to_string()),
    ];
    assert_eq!(fallback_installer_type(&entries), InstallerType::Exe);

    let original = vec![
        ("OriginalFilename".to_string(), "acme-installer.exe".to_string()),
    ];
    assert_eq!(fallback_installer_type(&original), InstallerType::Exe);

    let unrelated = vec![
        ("FileDescription".to_string(), "Acme Editor".to_string()),
        ("Comments".to_string(), "setup".to_string()),
    ];
    assert_eq!(fallback_installer_type(&unrelated), InstallerType::Portable);

    assert_eq!(fallback_installer_type(&Vec::new()), InstallerType::Portable);
}

#[test]
fn checksum_matches_the_reference_vector() {
    let bytes = b"123456789".to_vec();
    assert_eq!(crc32_of(&bytes), 0xCBF4_3926);
    assert_eq!(crc32_of(&Vec::new()), 0);
}

#[test]
fn sub_block_stream_round_trips() {
    let payload: Vec<u8> = (0u8..=255).cycle().take(5000).collect();
    let mut stream = Vec::new();
    for chunk in payload.chunks(4096) {
        let crc = crc32_of(&chunk.to_vec());
        stream.extend_from_slice(&crc.to_le_bytes());
        stream.extend_from_slice(chunk);
    }
    assert_eq!(deblock(&stream), Some(payload));

    let mut corrupted = stream.clone();
    corrupted[10] ^= 0xFF;
    assert_eq!(deblock(&corrupted), None);

    let truncated = stream[..stream.len() - 1].to_vec();
    assert!(deblock(&truncated).is_none());

    assert_eq!(deblock(&Vec::new()), Some(Vec::new()));
}
