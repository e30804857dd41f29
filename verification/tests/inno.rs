use std::io::{Read, Write};
use installer_probe::installers::compression::{resolve_legacy, resolve_modern, Compression};
use installer_probe::installers::crc32::crc32_of;
use installer_probe::installers::inno::{
    scope_from_install_dir, to_product_code, to_relative_install_dir, Inno, InnoError,
};
use installer_probe::installers::inno_loader::PeResource;
use installer_probe::installers::inno_version::{from_version_bytes, InnoVersion};
use installer_probe::manifest::{Architecture, ElevationRequirement, InstallerType, Scope};

fn le32(v: u32) -> [u8; 4] {
    v.to_le_bytes()
}

/// Cuts a payload into 4 KiB sub-blocks, each preceded by its checksum.
fn blockify(payload: &[u8]) -> Vec<u8> {
    let mut out = Vec::new();
    for chunk in payload.chunks(4096) {
        let crc = crc32_of(&chunk.to_vec());
        out.extend_from_slice(&le32(crc));
        out.extend_from_slice(chunk);
    }
    out
}

/// An ANSI length-prefixed string field.
fn field_str(s: &str) -> Vec<u8> {
    let mut out = Vec::new();
    out.extend_from_slice(&le32(s.len() as u32));
    out.extend_from_slice(s.as_bytes());
    out
}

/// A UTF-16LE length-prefixed string field.
fn field_str_utf16(s: &str) -> Vec<u8> {
    let bytes: Vec<u8> = s.encode_utf16().flat_map(|u| u.to_le_bytes()).collect();
    let mut out = Vec::new();
    out.extend_from_slice(&le32(bytes.len() as u32));
    out.extend_from_slice(&bytes);
    out
}

/// The decompressed header stream of a version 5.5.0 container with one
/// language and otherwise empty sections.
fn header_stream_550() -> Vec<u8> {
    let mut h = Vec::new();
    h.extend_from_slice(&field_str("App"));
    h.extend_from_slice(&field_str(""));
    h.extend_from_slice(&field_str("{ABC}"));
    h.extend_from_slice(&field_str(""));
    h.extend_from_slice(&field_str("Pub"));
    h.extend_from_slice(&field_str("1.0"));
    h.extend_from_slice(&field_str("{pf}\\App"));
    h.extend_from_slice(&field_str(""));
    h.extend_from_slice(&field_str("App 1.0"));
    // counts: language, message
    h.extend_from_slice(&le32(1));
    h.extend_from_slice(&le32(0));
    // permission count (>= 4.1.0)
    h.extend_from_slice(&le32(0));
    // type, component, task counts (>= 2.0.0)
    h.extend_from_slice(&le32(0));
    h.extend_from_slice(&le32(0));
    h.extend_from_slice(&le32(0));
    // directory, file, icon, ini, registry counts
    h.extend_from_slice(&le32(0));
    h.extend_from_slice(&le32(0));
    h.extend_from_slice(&le32(0));
    h.extend_from_slice(&le32(0));
    h.extend_from_slice(&le32(0));
    // architectures allowed (x64), disallowed (x86) (>= 5.1.0)
    h.push(2);
    h.push(1);
    // privileges required: admin (>= 3.0.0); no overrides byte before 6.0.0
    h.push(2);
    // one language record
    h.extend_from_slice(&field_str("en"));
    h.extend_from_slice(&field_str("English"));
    h.extend_from_slice(&le32(1033));
    h.extend_from_slice(&le32(1252));
    h
}

/// A whole version 5.5.0 host file with a stored (uncompressed) header.
fn container_550(corrupt_checksum: bool) -> Vec<u8> {
    let stream = header_stream_550();
    let blocks = blockify(&stream);

    let table_at: u32 = 0x100;
    let header_at: u32 = 0x140;

    let mut data = vec![0u8; 0x140];
    // legacy offset record: table offset and its complement
    data[0x30..0x34].copy_from_slice(&le32(table_at));
    data[0x34..0x38].copy_from_slice(&le32(!table_at));
    // offset table: signature then header offset
    let sig: [u8; 12] = [
        0x72, 0x44, 0x6C, 0x50, 0x74, 0x53, 0x30, 0x32, 0x87, 0x65, 0x56, 0x78,
    ];
    data[0x100..0x10C].copy_from_slice(&sig);
    data[0x10C..0x110].copy_from_slice(&le32(header_at));

    // structural header: 64-byte version run
    let mut version_run = [0u8; 64];
    let name = b"Inno Setup Setup Data (5.5.0)";
    version_run[..name.len()].copy_from_slice(name);
    data.extend_from_slice(&version_run);

    // size fields: declared size + uncompressed flag, guarded by a checksum
    let mut fields = Vec::new();
    fields.extend_from_slice(&le32(blocks.len() as u32));
    fields.push(0);
    let mut crc = crc32_of(&fields);
    if corrupt_checksum {
        crc ^= 0xDEAD_BEEF;
    }
    data.extend_from_slice(&le32(crc));
    data.extend_from_slice(&fields);
    data.extend_from_slice(&blocks);
    data
}

#[test]
fn parses_stored_container() {
    let data = container_550(false);
    let resources: Vec<PeResource> = Vec::new();
    let inno = Inno::new(&data, &resources).expect("container parses");
    assert_eq!(inno.installers.len(), 1);
    let installer = &inno.installers[0];
    assert_eq!(installer.installer_type, Some(InstallerType::Inno));
    assert_eq!(installer.architecture, Some(Architecture::X64));
    assert_eq!(
        installer.unsupported_os_architectures,
        Some(vec![Architecture::X86])
    );
    assert_eq!(installer.product_code, Some(String::from("{ABC}_is1")));
    assert_eq!(installer.locale, Some(String::from("en-US")));
    assert_eq!(
        installer.elevation_requirement,
        Some(ElevationRequirement::ElevationRequired)
    );
    assert_eq!(installer.scope, None);
    let metadata = installer.installation_metadata.as_ref().expect("metadata");
    assert_eq!(
        metadata.default_install_location,
        Some(String::from("%ProgramFiles%\\App"))
    );
    let apps = installer.apps_and_features_entries.as_ref().expect("entry");
    assert_eq!(apps.len(), 1);
    assert_eq!(apps[0].display_name, Some(String::from("App 1.0")));
    assert_eq!(apps[0].publisher, Some(String::from("Pub")));
    assert_eq!(apps[0].display_version, Some(String::from("1.0")));
    assert_eq!(apps[0].product_code, Some(String::from("{ABC}_is1")));
}

#[test]
fn corrupted_checksum_fails_with_mismatch() {
    let data = container_550(true);
    let resources: Vec<PeResource> = Vec::new();
    match Inno::new(&data, &resources) {
        Err(InnoError::CrcChecksumMismatch { actual, expected }) => {
            assert_ne!(actual, expected);
        },
        other => panic!("expected a checksum mismatch, got {other:?}"),
    }
}

#[test]
fn not_inno_file_without_any_table() {
    let data = vec![0u8; 0x200];
    let resources: Vec<PeResource> = Vec::new();
    assert_eq!(Inno::new(&data, &resources).unwrap_err(), InnoError::NotInnoFile);
}

#[test]
fn unknown_version_is_rejected() {
    let mut data = container_550(false);
    let junk = b"Inno Setup Setup Data (9.9.9)";
    data[0x140..0x180].fill(0);
    data[0x140..0x140 + junk.len()].copy_from_slice(junk);
    match Inno::new(&data, &Vec::new()) {
        Err(InnoError::UnknownVersion(s)) => {
            assert_eq!(s, "Inno Setup Setup Data (9.9.9)");
        },
        other => panic!("expected an unknown version, got {other:?}"),
    }
}

#[test]
fn unsupported_version_is_rejected() {
    let mut data = container_550(false);
    let newer = b"Inno Setup Setup Data (6.5.0)";
    data[0x140..0x180].fill(0);
    data[0x140..0x140 + newer.len()].copy_from_slice(newer);
    match Inno::new(&data, &Vec::new()) {
        Err(InnoError::UnsupportedVersion(known)) => {
            assert_eq!(known.version, InnoVersion::new(6, 5, 0, 0));
        },
        other => panic!("expected an unsupported version, got {other:?}"),
    }
}

/// A version 6.3.0 container (16-bit text) with the command-line
/// privilege-override permission set.
fn container_630() -> Vec<u8> {
    let mut h = Vec::new();
    h.extend_from_slice(&field_str_utf16("App"));
    h.extend_from_slice(&field_str_utf16(""));
    h.extend_from_slice(&field_str_utf16("{ABC}"));
    h.extend_from_slice(&field_str_utf16(""));
    h.extend_from_slice(&field_str_utf16("P\u{fc}b"));
    h.extend_from_slice(&field_str_utf16("2.0"));
    h.extend_from_slice(&field_str_utf16("{autopf}\\App"));
    h.extend_from_slice(&field_str_utf16(""));
    h.extend_from_slice(&field_str_utf16(""));
    for count in [0u32; 11] {
        h.extend_from_slice(&le32(count));
    }
    h.push(2); // architectures allowed: x64
    h.push(0); // none disallowed
    h.push(0); // no privilege level
    h.push(1); // overrides allowed: command line
    let blocks = blockify(&h);

    let table_at: u32 = 0x100;
    let header_at: u32 = 0x140;
    let mut data = vec![0u8; 0x140];
    data[0x30..0x34].copy_from_slice(&le32(table_at));
    data[0x34..0x38].copy_from_slice(&le32(!table_at));
    let sig: [u8; 12] = [
        0x72, 0x44, 0x6C, 0x50, 0x74, 0x53, 0x30, 0x32, 0x87, 0x65, 0x56, 0x78,
    ];
    data[0x100..0x10C].copy_from_slice(&sig);
    data[0x10C..0x110].copy_from_slice(&le32(header_at));
    let mut version_run = [0u8; 64];
    let name = b"Inno Setup Setup Data (6.3.0)";
    version_run[..name.len()].copy_from_slice(name);
    data.extend_from_slice(&version_run);
    let mut fields = Vec::new();
    fields.extend_from_slice(&le32(blocks.len() as u32));
    fields.push(0);
    let crc = crc32_of(&fields);
    data.extend_from_slice(&le32(crc));
    data.extend_from_slice(&fields);
    data.extend_from_slice(&blocks);
    data
}

#[test]
fn dual_scope_emission() {
    let data = container_630();
    let inno = Inno::new(&data, &Vec::new()).expect("container parses");
    assert_eq!(inno.installers.len(), 2);
    let machine = &inno.installers[0];
    let user = &inno.installers[1];
    assert_eq!(machine.scope, Some(Scope::Machine));
    assert_eq!(user.scope, Some(Scope::User));
    assert_eq!(
        machine.switches.as_ref().unwrap().custom.as_ref().unwrap().switch,
        "/ALLUSERS"
    );
    assert_eq!(
        user.switches.as_ref().unwrap().custom.as_ref().unwrap().switch,
        "/CURRENTUSER"
    );
    assert!(machine.installation_metadata.is_some());
    assert!(user.installation_metadata.is_none());
    assert_eq!(machine.product_code, user.product_code);
    assert_eq!(machine.locale, user.locale);
    assert_eq!(machine.architecture, user.architecture);
    let apps = machine.apps_and_features_entries.as_ref().expect("entry");
    assert_eq!(apps[0].publisher, Some(String::from("P\u{fc}b")));
}

#[test]
fn single_record_without_override_permission() {
    let data = container_550(false);
    let inno = Inno::new(&data, &Vec::new()).expect("container parses");
    assert_eq!(inno.installers.len(), 1);
    assert!(inno.installers[0].switches.is_none());
}

#[test]
fn resource_strategy_finds_table() {
    let mut data = container_550(false);
    // break the legacy record's self-check; the resource must take over
    data[0x34] ^= 0xFF;
    let resources = vec![PeResource { type_id: 10, id: 11111, offset: 0x100, length: 0x10 }];
    let inno = Inno::new(&data, &resources).expect("container parses via resource");
    assert_eq!(inno.installers.len(), 1);
}

#[test]
fn legacy_compression_sentinel_resolves_to_stored() {
    let resolved = resolve_legacy(u32::MAX, 100);
    assert_eq!(resolved, Compression::Stored(104));
    let zlib = resolve_legacy(5000, 100);
    assert_eq!(zlib, Compression::Zlib(5000 + 2 * 4));
}

#[test]
fn modern_compression_is_version_gated() {
    let new = InnoVersion::new(5, 5, 0, 0);
    let old = InnoVersion::new(4, 1, 0, 0);
    assert_eq!(resolve_modern(&new, 10, true), Compression::Lzma1(10));
    assert_eq!(resolve_modern(&old, 10, true), Compression::Zlib(10));
    assert_eq!(resolve_modern(&new, 10, false), Compression::Stored(10));
}

#[test]
fn version_registry_accepts_exactly_the_table() {
    let known = from_version_bytes(&b"Inno Setup Setup Data (6.3.0)".to_vec()).expect("known");
    assert_eq!(known.version, InnoVersion::new(6, 3, 0, 0));
    assert!(known.unicode);
    let ansi = from_version_bytes(&b"Inno Setup Setup Data (5.5.0)".to_vec()).expect("known");
    assert!(!ansi.unicode);
    assert!(from_version_bytes(&b"Inno Setup Setup Data (9.9.9)".to_vec()).is_none());
    assert!(from_version_bytes(&b"anything else".to_vec()).is_none());
    assert!(from_version_bytes(&b"".to_vec()).is_none());
}

#[test]
fn version_order_is_transitive_and_consistent() {
    let a = InnoVersion::new(6, 1, 0, 0);
    let b = InnoVersion::new(6, 4, 255, 0);
    let c = InnoVersion::new(6, 4, 255, 1);
    assert!(a.lt(&b));
    assert!(b.lt(&c));
    assert!(a.lt(&c));
    assert!(!b.lt(&a));
    assert!(!a.lt(&a));
    assert!(b.gt(&a));
    assert!(a.after_triple(5, 5, 0));
    assert!(a.before_triple(6, 4, 255));
    assert!(b.at_least_triple(6, 4, 255));
}

#[test]
fn product_code_transform() {
    assert_eq!(
        to_product_code(String::from("{{ABCD-1234}")),
        "{ABCD-1234}_is1"
    );
    assert_eq!(to_product_code(String::from("{ABCD-1234}")), "{ABCD-1234}_is1");
    assert_eq!(to_product_code(String::from("plain")), "plain_is1");
}

#[test]
fn install_dir_token_substitution() {
    assert_eq!(
        to_relative_install_dir(String::from("{app}\\{pf}\\Sub")),
        "{app}\\%ProgramFiles%\\Sub"
    );
    assert_eq!(
        to_relative_install_dir(String::from("{pf}\\A\\{pf}\\B")),
        "%ProgramFiles%\\A\\{pf}\\B"
    );
    assert_eq!(
        to_relative_install_dir(String::from("no placeholder here")),
        "no placeholder here"
    );
    assert_eq!(
        to_relative_install_dir(String::from("{localappdata}{win}")),
        "{localappdata}%WinDir%"
    );
    assert_eq!(
        to_relative_install_dir(String::from("{userpf}\\Tool")),
        "%LocalAppData%\\Programs\\Tool"
    );
}

#[test]
fn scope_follows_user_locations() {
    assert_eq!(
        scope_from_install_dir(&String::from("%LocalAppData%\\Programs\\Tool")),
        Some(Scope::User)
    );
    assert_eq!(
        scope_from_install_dir(&String::from("%AppData%\\Tool")),
        Some(Scope::User)
    );
    assert_eq!(scope_from_install_dir(&String::from("%ProgramFiles%\\Tool")), None);
}

#[test]
fn zlib_compressed_container_parses() {
    // a version 4.1.6 stream: wide counts, a privilege byte, but no
    // architecture bit sets and no override permissions yet
    let mut stream = Vec::new();
    stream.extend_from_slice(&field_str("App"));
    stream.extend_from_slice(&field_str(""));
    stream.extend_from_slice(&field_str("{ABC}"));
    stream.extend_from_slice(&field_str(""));
    stream.extend_from_slice(&field_str("Pub"));
    stream.extend_from_slice(&field_str("1.0"));
    stream.extend_from_slice(&field_str("{pf}\\App"));
    stream.extend_from_slice(&field_str(""));
    stream.extend_from_slice(&field_str(""));
    stream.extend_from_slice(&le32(1));
    for _ in 0..10 {
        stream.extend_from_slice(&le32(0));
    }
    stream.push(2); // privileges required: admin
    stream.extend_from_slice(&field_str("en"));
    stream.extend_from_slice(&field_str("English"));
    stream.extend_from_slice(&le32(1033));
    stream.extend_from_slice(&le32(1252));
    let mut encoder = flate2::write::ZlibEncoder::new(Vec::new(), flate2::Compression::default());
    encoder.write_all(&stream).unwrap();
    let compressed = encoder.finish().unwrap();
    let blocks = blockify(&compressed);

    let table_at: u32 = 0x100;
    let header_at: u32 = 0x140;
    let mut data = vec![0u8; 0x140];
    data[0x30..0x34].copy_from_slice(&le32(table_at));
    data[0x34..0x38].copy_from_slice(&le32(!table_at));
    let sig: [u8; 12] = [
        0x72, 0x44, 0x6C, 0x50, 0x74, 0x53, 0x30, 0x32, 0x87, 0x65, 0x56, 0x78,
    ];
    data[0x100..0x10C].copy_from_slice(&sig);
    data[0x10C..0x110].copy_from_slice(&le32(header_at));
    let mut version_run = [0u8; 64];
    // 4.1.6 is past the modern threshold but still on the zlib side
    let name = b"Inno Setup Setup Data (4.1.6)";
    version_run[..name.len()].copy_from_slice(name);
    data.extend_from_slice(&version_run);
    let mut fields = Vec::new();
    fields.extend_from_slice(&le32(blocks.len() as u32));
    fields.push(1);
    let crc = crc32_of(&fields);
    data.extend_from_slice(&le32(crc));
    data.extend_from_slice(&fields);
    data.extend_from_slice(&blocks);

    let inno = Inno::new(&data, &Vec::new()).expect("zlib container parses");
    assert_eq!(inno.installers.len(), 1);
    assert_eq!(inno.installers[0].product_code, Some(String::from("{ABC}_is1")));
}

#[test]
fn lzma_compressed_container_parses() {
    let stream = header_stream_550();

    // a raw stream with known coder properties: lc=3, lp=0, pb=2 and an
    // 8 MiB dictionary pack into the 5-byte property header below
    let mut opts = liblzma::stream::LzmaOptions::new_preset(6).unwrap();
    opts.dict_size(0x0080_0000);
    opts.literal_context_bits(3);
    opts.literal_position_bits(0);
    opts.position_bits(2);
    let mut filters = liblzma::stream::Filters::new();
    filters.lzma1(&opts);
    let raw = liblzma::stream::Stream::new_raw_encoder(&filters).unwrap();
    let mut encoder = liblzma::read::XzEncoder::new_stream(&stream[..], raw);
    let mut compressed = Vec::new();
    encoder.read_to_end(&mut compressed).unwrap();

    let mut payload = vec![0x5D, 0x00, 0x00, 0x80, 0x00];
    payload.extend_from_slice(&compressed);
    let blocks = blockify(&payload);

    let table_at: u32 = 0x100;
    let header_at: u32 = 0x140;
    let mut data = vec![0u8; 0x140];
    data[0x30..0x34].copy_from_slice(&le32(table_at));
    data[0x34..0x38].copy_from_slice(&le32(!table_at));
    let sig: [u8; 12] = [
        0x72, 0x44, 0x6C, 0x50, 0x74, 0x53, 0x30, 0x32, 0x87, 0x65, 0x56, 0x78,
    ];
    data[0x100..0x10C].copy_from_slice(&sig);
    data[0x10C..0x110].copy_from_slice(&le32(header_at));
    let mut version_run = [0u8; 64];
    let name = b"Inno Setup Setup Data (5.5.0)";
    version_run[..name.len()].copy_from_slice(name);
    data.extend_from_slice(&version_run);
    let mut fields = Vec::new();
    fields.extend_from_slice(&le32(blocks.len() as u32));
    fields.push(1);
    let crc = crc32_of(&fields);
    data.extend_from_slice(&le32(crc));
    data.extend_from_slice(&fields);
    data.extend_from_slice(&blocks);

    let inno = Inno::new(&data, &Vec::new()).expect("lzma container parses");
    assert_eq!(inno.installers.len(), 1);
    assert_eq!(inno.installers[0].product_code, Some(String::from("{ABC}_is1")));
}

#[test]
fn remaining_error_kinds_are_distinguished() {
    // a header offset past the end of the file
    let mut data = container_550(false);
    data[0x10C..0x110].copy_from_slice(&le32(0x0010_0000));
    assert_eq!(Inno::new(&data, &Vec::new()).unwrap_err(), InnoError::InvalidSetupHeader);

    // a version run without a terminator
    let mut data = container_550(false);
    data[0x140..0x180].fill(b'x');
    assert_eq!(Inno::new(&data, &Vec::new()).unwrap_err(), InnoError::InvalidSetupHeader);

    // an offset table with a signature nobody knows
    let mut data = container_550(false);
    data[0x100] ^= 0xFF;
    match Inno::new(&data, &Vec::new()) {
        Err(InnoError::UnknownLoaderSignature(sig)) => assert_eq!(sig.len(), 12),
        other => panic!("expected an unknown signature, got {other:?}"),
    }

    // a declared size past the end of the stored payload
    let mut data = container_550(false);
    let fields_at = 0x140 + 64 + 4;
    let huge = le32(0x00FF_FFFF);
    data[fields_at..fields_at + 4].copy_from_slice(&huge);
    let mut fields = huge.to_vec();
    fields.push(0);
    let crc = crc32_of(&fields);
    data[0x140 + 64..0x140 + 64 + 4].copy_from_slice(&le32(crc));
    assert_eq!(Inno::new(&data, &Vec::new()).unwrap_err(), InnoError::TruncatedStream);

    // a corrupted sub-block checksum inside the payload
    let mut data = container_550(false);
    let payload_at = 0x140 + 64 + 4 + 5;
    data[payload_at] ^= 0xFF;
    assert_eq!(Inno::new(&data, &Vec::new()).unwrap_err(), InnoError::DecodeFailure);
}

#[test]
fn unknown_version_payload_is_lossy_text() {
    let mut data = container_550(false);
    data[0x140..0x180].fill(0);
    // an ill-formed byte in the version run is replaced, not dropped
    data[0x140..0x145].copy_from_slice(&[b'B', b'a', b'd', b' ', 0xFF]);
    match Inno::new(&data, &Vec::new()) {
        Err(InnoError::UnknownVersion(s)) => {
            assert_eq!(s, "Bad \u{FFFD}");
        },
        other => panic!("expected an unknown version, got {other:?}"),
    }
}
