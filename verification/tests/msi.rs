use installer_probe::installers::msi::{synthesize_installer, Msi, MsiError};
use installer_probe::manifest::{Architecture, InstallerType, Scope};

fn props(rows: &[(&str, &str)]) -> Vec<(Option<String>, Option<String>)> {
    rows.iter()
        .map(|(k, v)| (Some(k.to_string()), Some(v.to_string())))
        .collect()
}

fn dirs(rows: &[(&str, Option<&str>, &str)]) -> Vec<(Option<String>, Option<String>, Option<String>)> {
    rows.iter()
        .map(|(d, p, def)| {
            (
                Some(d.to_string()),
                p.map(|s| s.to_string()),
                Some(def.to_string()),
            )
        })
        .collect()
}

#[test]
fn synthesizes_a_full_record() {
    let prop_rows = props(&[
        ("ProductName", "Foo"),
        ("Manufacturer", "Bar"),
        ("ProductVersion", "1.2.3"),
        ("ProductCode", "{X-1}"),
        ("UpgradeCode", "{U-1}"),
        ("ALLUSERS", "1"),
        ("ProductLanguage", "1033"),
    ]);
    let dir_rows = dirs(&[
        ("TARGETDIR", None, "SourceDir"),
        ("ProgramFiles64Folder", Some("TARGETDIR"), "PFiles"),
        ("INSTALLDIR", Some("ProgramFiles64Folder"), "Foo"),
    ]);
    let m = synthesize_installer(
        Some("x64".to_string()),
        None,
        None,
        &prop_rows,
        &dir_rows,
        None,
    )
    .expect("synthesis succeeds");
    let installer = &m.installer;
    assert_eq!(installer.architecture, Some(Architecture::X64));
    assert_eq!(installer.installer_type, Some(InstallerType::Msi));
    assert_eq!(installer.scope, Some(Scope::Machine));
    assert_eq!(installer.product_code, Some("{X-1}".to_string()));
    assert_eq!(installer.locale, Some("en-US".to_string()));
    let metadata = installer.installation_metadata.as_ref().expect("metadata");
    assert_eq!(
        metadata.default_install_location,
        Some("%ProgramFiles%\\Foo".to_string())
    );
    let apps = installer.apps_and_features_entries.as_ref().expect("entry");
    assert_eq!(apps[0].display_name, Some("Foo".to_string()));
    assert_eq!(apps[0].publisher, Some("Bar".to_string()));
    assert_eq!(apps[0].display_version, Some("1.2.3".to_string()));
    assert_eq!(apps[0].upgrade_code, Some("{U-1}".to_string()));
}

#[test]
fn unknown_architecture_is_an_error() {
    let r = synthesize_installer(
        Some("mips".to_string()),
        None,
        None,
        &props(&[]),
        &dirs(&[]),
        None,
    );
    assert_eq!(
        r.err().map(|e| matches!(e, MsiError::UnknownArchitecture(_))),
        Some(true)
    );
}

#[test]
fn missing_template_defaults_to_x86() {
    let m = synthesize_installer(None, None, None, &props(&[]), &dirs(&[]), None)
        .expect("synthesis succeeds");
    assert_eq!(m.installer.architecture, Some(Architecture::X86));
}

#[test]
fn allusers_values_decide_the_scope() {
    let run = |allusers: Option<&str>, control: Option<Vec<Option<String>>>| {
        let rows = match allusers {
            Some(v) => props(&[("ALLUSERS", v)]),
            None => props(&[]),
        };
        synthesize_installer(None, None, None, &rows, &dirs(&[]), control)
            .expect("synthesis succeeds")
            .installer
            .scope
    };
    assert_eq!(run(Some("1"), None), Some(Scope::Machine));
    assert_eq!(run(Some("2"), None), None);
    assert_eq!(run(Some(""), None), Some(Scope::User));
    // an unreadable control table leaves the per-user default
    assert_eq!(run(Some("runtime"), None), Some(Scope::User));
    assert_eq!(run(None, None), Some(Scope::User));
    // a control that can change the property at run time leaves it open
    assert_eq!(
        run(Some("runtime"), Some(vec![Some("ALLUSERS".to_string())])),
        None
    );
    assert_eq!(
        run(None, Some(vec![Some("OTHER".to_string()), None])),
        Some(Scope::User)
    );
}

#[test]
fn wix_toolset_is_detected() {
    let m = synthesize_installer(
        None,
        Some("WiX Toolset v3".to_string()),
        None,
        &props(&[]),
        &dirs(&[]),
        None,
    )
    .expect("synthesis succeeds");
    assert_eq!(m.installer.installer_type, Some(InstallerType::Wix));

    let by_property = synthesize_installer(
        None,
        None,
        None,
        &props(&[("WixUIBanner", "yes")]),
        &dirs(&[]),
        None,
    )
    .expect("synthesis succeeds");
    assert_eq!(by_property.installer.installer_type, Some(InstallerType::Wix));

    let plain = synthesize_installer(None, None, None, &props(&[]), &dirs(&[]), None)
        .expect("synthesis succeeds");
    assert_eq!(plain.installer.installer_type, Some(InstallerType::Msi));
}

#[test]
fn chrome_version_comes_from_the_comments() {
    let m = synthesize_installer(
        None,
        None,
        Some("108.0.5359.125 Copyright 2022 Google LLC".to_string()),
        &props(&[("ProductName", "Google Chrome"), ("ProductVersion", "66.215.4417")]),
        &dirs(&[]),
        None,
    )
    .expect("synthesis succeeds");
    let apps = m.installer.apps_and_features_entries.as_ref().expect("entry");
    assert_eq!(apps[0].display_version, Some("108.0.5359.125".to_string()));

    let other = synthesize_installer(
        None,
        None,
        Some("108.0.5359.125".to_string()),
        &props(&[("ProductName", "Other"), ("ProductVersion", "1.0")]),
        &dirs(&[]),
        None,
    )
    .expect("synthesis succeeds");
    let apps = other.installer.apps_and_features_entries.as_ref().expect("entry");
    assert_eq!(apps[0].display_version, Some("1.0".to_string()));
}

#[test]
fn install_directory_falls_back_through_the_heuristics() {
    // the dedicated entry is missing: the interface property names the entry
    let dir_rows = dirs(&[
        ("TARGETDIR", None, "SourceDir"),
        ("ProgramFilesFolder", Some("TARGETDIR"), "PFiles"),
        ("MYDIR", Some("ProgramFilesFolder"), "My App"),
    ]);
    let m = synthesize_installer(
        None,
        None,
        None,
        &props(&[("WIXUI_INSTALLDIR", "MYDIR")]),
        &dir_rows,
        None,
    )
    .expect("synthesis succeeds");
    assert_eq!(
        m.installer.installation_metadata.as_ref().unwrap().default_install_location,
        Some("%ProgramFiles(x86)%\\My App".to_string())
    );

    // no property either: a name containing the marker is found
    let named = dirs(&[
        ("TARGETDIR", None, "SourceDir"),
        ("MyInstallDirThing", Some("TARGETDIR"), "Thing"),
    ]);
    let m = synthesize_installer(None, None, None, &props(&[]), &named, None)
        .expect("synthesis succeeds");
    assert_eq!(
        m.installer.installation_metadata.as_ref().unwrap().default_install_location,
        Some("Thing".to_string())
    );

    // last resort: the walk down single-child links
    let chain = dirs(&[
        ("TARGETDIR", None, "SourceDir"),
        ("ProgramFiles64Folder", Some("TARGETDIR"), "PFiles"),
        ("VendorDir", Some("ProgramFiles64Folder"), "Vendor"),
    ]);
    let m = synthesize_installer(None, None, None, &props(&[]), &chain, None)
        .expect("synthesis succeeds");
    assert_eq!(
        m.installer.installation_metadata.as_ref().unwrap().default_install_location,
        Some("%ProgramFiles%\\Vendor".to_string())
    );

    // nothing at all: no location
    let m = synthesize_installer(None, None, None, &props(&[]), &dirs(&[]), None)
        .expect("synthesis succeeds");
    assert_eq!(
        m.installer.installation_metadata.as_ref().unwrap().default_install_location,
        None
    );
}

#[test]
fn property_relative_path_maps_known_folders() {
    assert_eq!(
        Msi::get_property_relative_path("ProgramFiles64Folder"),
        Some("%ProgramFiles%")
    );
    assert_eq!(
        Msi::get_property_relative_path("LocalAppDataFolder"),
        Some("%LocalAppData%")
    );
    assert_eq!(Msi::get_property_relative_path("SomethingElse"), None);
}

#[test]
fn unreadable_bytes_are_an_open_failure() {
    let junk = vec![0u8; 64];
    assert_eq!(Msi::new(&junk).err(), Some(MsiError::OpenFailure));
}

/// Builds a real in-memory package with the given property and directory
/// rows, then reads it back through the whole pipeline.
fn build_package(
    arch: &str,
    creating_application: Option<&str>,
    property_rows: &[(&str, &str)],
    directory_rows: &[(&str, Option<&str>, &str)],
) -> Vec<u8> {
    let cursor = std::io::Cursor::new(Vec::new());
    let mut pkg = msi::Package::create(msi::PackageType::Installer, cursor).expect("create");
    pkg.summary_info_mut().set_arch(arch);
    if let Some(app) = creating_application {
        pkg.summary_info_mut().set_creating_application(app);
    }
    pkg.create_table(
        "Property",
        vec![
            msi::Column::build("Property").primary_key().id_string(72),
            msi::Column::build("Value").text_string(255),
        ],
    )
    .expect("property table");
    for (k, v) in property_rows {
        pkg.insert_rows(
            msi::Insert::into("Property")
                .row(vec![msi::Value::Str(k.to_string()), msi::Value::Str(v.to_string())]),
        )
        .expect("property row");
    }
    pkg.create_table(
        "Directory",
        vec![
            msi::Column::build("Directory").primary_key().id_string(72),
            msi::Column::build("Directory_Parent").nullable().id_string(72),
            msi::Column::build("DefaultDir").text_string(255),
        ],
    )
    .expect("directory table");
    for (d, p, def) in directory_rows {
        let parent = match p {
            Some(p) => msi::Value::Str(p.to_string()),
            None => msi::Value::Null,
        };
        pkg.insert_rows(msi::Insert::into("Directory").row(vec![
            msi::Value::Str(d.to_string()),
            parent,
            msi::Value::Str(def.to_string()),
        ]))
        .expect("directory row");
    }
    pkg.into_inner().expect("finish").into_inner()
}

#[test]
fn reads_a_real_package_end_to_end() {
    let bytes = build_package(
        "x64",
        Some("WiX Toolset v4"),
        &[
            ("ProductName", "Widget"),
            ("Manufacturer", "Acme"),
            ("ProductVersion", "2.5.0"),
            ("ProductCode", "{AAA-BBB}"),
            ("ALLUSERS", "1"),
            ("ProductLanguage", "1033"),
        ],
        &[
            ("TARGETDIR", None, "SourceDir"),
            ("ProgramFiles64Folder", Some("TARGETDIR"), "PFiles"),
            ("INSTALLDIR", Some("ProgramFiles64Folder"), "Widget"),
        ],
    );
    let m = Msi::new(&bytes).expect("package reads back");
    let installer = &m.installer;
    assert_eq!(installer.architecture, Some(Architecture::X64));
    assert_eq!(installer.installer_type, Some(InstallerType::Wix));
    assert_eq!(installer.scope, Some(Scope::Machine));
    assert_eq!(installer.product_code, Some("{AAA-BBB}".to_string()));
    assert_eq!(installer.locale, Some("en-US".to_string()));
    assert_eq!(
        installer.installation_metadata.as_ref().unwrap().default_install_location,
        Some("%ProgramFiles%\\Widget".to_string())
    );
    let apps = installer.apps_and_features_entries.as_ref().expect("entry");
    assert_eq!(apps[0].display_name, Some("Widget".to_string()));
    assert_eq!(apps[0].publisher, Some("Acme".to_string()));
    assert_eq!(apps[0].display_version, Some("2.5.0".to_string()));
}

#[test]
fn missing_tables_are_a_query_failure() {
    let cursor = std::io::Cursor::new(Vec::new());
    let pkg = msi::Package::create(msi::PackageType::Installer, cursor).expect("create");
    let bytes = pkg.into_inner().expect("finish").into_inner();
    assert_eq!(Msi::new(&bytes).err(), Some(MsiError::QueryFailure));
}
