//! The normalized installer-metadata model that every parser feeds.

use vstd::prelude::*;

verus! {

/// The hardware architecture an installer targets.
#[derive(Clone, Copy, PartialEq, Eq, Structural, Debug)]
pub enum Architecture {
    X64,
    X86,
    Arm64,
    Arm,
    Neutral,
}

/// Whether an installed application is registered per-machine or per-user.
#[derive(Clone, Copy, PartialEq, Eq, Structural, Debug)]
pub enum Scope {
    Machine,
    User,
}

/// The kind of installer container a file turned out to be.
#[derive(Clone, Copy, PartialEq, Eq, Structural, Debug)]
pub enum InstallerType {
    Msi,
    Wix,
    Inno,
    Nsis,
    Burn,
    Exe,
    Portable,
    Msix,
    Appx,
    Zip,
}

/// Whether an installer must run elevated, refuses to, or elevates itself.
#[derive(Clone, Copy, PartialEq, Eq, Structural, Debug)]
pub enum ElevationRequirement {
    ElevationRequired,
    ElevationProhibited,
    ElevatesSelf,
}

/// A custom command-line switch attached to an installer invocation.
#[derive(Clone, PartialEq, Eq, Debug)]
pub struct CustomSwitch {
    pub switch: String,
}

impl CustomSwitch {
    /// The switch that forces a machine-wide install.
    pub fn all_users() -> (r: CustomSwitch)
        ensures
            r.switch@ == "/ALLUSERS"@,
    {
        CustomSwitch { switch: String::from_str("/ALLUSERS") }
    }

    /// The switch that forces a per-user install.
    pub fn current_user() -> (r: CustomSwitch)
        ensures
            r.switch@ == "/CURRENTUSER"@,
    {
        CustomSwitch { switch: String::from_str("/CURRENTUSER") }
    }
}

/// The switches attached to an installer invocation.
#[derive(Clone, PartialEq, Eq, Debug)]
pub struct InstallerSwitches {
    pub custom: Option<CustomSwitch>,
}

impl InstallerSwitches {
    pub fn new() -> (r: InstallerSwitches)
        ensures
            r.custom is None,
    {
        InstallerSwitches { custom: None }
    }
}

/// The metadata shown in the installed-applications list.
#[derive(Clone, PartialEq, Eq, Debug)]
pub struct AppsAndFeaturesEntry {
    pub display_name: Option<String>,
    pub publisher: Option<String>,
    pub display_version: Option<String>,
    pub product_code: Option<String>,
    pub upgrade_code: Option<String>,
}

impl AppsAndFeaturesEntry {
    pub fn new() -> (r: AppsAndFeaturesEntry)
        ensures
            r.display_name is None,
            r.publisher is None,
            r.display_version is None,
            r.product_code is None,
            r.upgrade_code is None,
    {
        AppsAndFeaturesEntry {
            display_name: None,
            publisher: None,
            display_version: None,
            product_code: None,
            upgrade_code: None,
        }
    }
}

/// Where an application installs itself by default.
#[derive(Clone, PartialEq, Eq, Debug)]
pub struct InstallationMetadata {
    pub default_install_location: Option<String>,
}

/// One normalized installer record.
#[derive(Clone, PartialEq, Eq, Debug)]
pub struct Installer {
    pub locale: Option<String>,
    pub architecture: Option<Architecture>,
    pub installer_type: Option<InstallerType>,
    pub scope: Option<Scope>,
    pub product_code: Option<String>,
    pub unsupported_os_architectures: Option<Vec<Architecture>>,
    pub apps_and_features_entries: Option<Vec<AppsAndFeaturesEntry>>,
    pub elevation_requirement: Option<ElevationRequirement>,
    pub installation_metadata: Option<InstallationMetadata>,
    pub switches: Option<InstallerSwitches>,
}

impl Installer {
    /// An installer record with every field still unknown.
    pub fn new() -> (r: Installer)
        ensures
            r == spec_empty_installer(),
    {
        Installer {
            locale: None,
            architecture: None,
            installer_type: None,
            scope: None,
            product_code: None,
            unsupported_os_architectures: None,
            apps_and_features_entries: None,
            elevation_requirement: None,
            installation_metadata: None,
            switches: None,
        }
    }
}

/// The installer record with every field unknown.
pub open spec fn spec_empty_installer() -> Installer {
    Installer {
        locale: None,
        architecture: None,
        installer_type: None,
        scope: None,
        product_code: None,
        unsupported_os_architectures: None,
        apps_and_features_entries: None,
        elevation_requirement: None,
        installation_metadata: None,
        switches: None,
    }
}

/// The mathematical value of a custom switch.
pub open spec fn spec_switch_view(s: CustomSwitch) -> Seq<char> {
    s.switch@
}

/// The mathematical value of an optional text field.
pub open spec fn spec_opt_text(s: Option<String>) -> Option<Seq<char>> {
    match s {
        Some(t) => Some(t@),
        None => None,
    }
}

/// The mathematical value of an apps-and-features entry.
pub struct AppsAndFeaturesEntryV {
    pub display_name: Option<Seq<char>>,
    pub publisher: Option<Seq<char>>,
    pub display_version: Option<Seq<char>>,
    pub product_code: Option<Seq<char>>,
    pub upgrade_code: Option<Seq<char>>,
}

impl View for AppsAndFeaturesEntry {
    type V = AppsAndFeaturesEntryV;

    open spec fn view(&self) -> AppsAndFeaturesEntryV {
        AppsAndFeaturesEntryV {
            display_name: spec_opt_text(self.display_name),
            publisher: spec_opt_text(self.publisher),
            display_version: spec_opt_text(self.display_version),
            product_code: spec_opt_text(self.product_code),
            upgrade_code: spec_opt_text(self.upgrade_code),
        }
    }
}

/// The mathematical value of the switches attached to an installer.
pub struct InstallerSwitchesV {
    pub custom: Option<Seq<char>>,
}

impl View for InstallerSwitches {
    type V = InstallerSwitchesV;

    open spec fn view(&self) -> InstallerSwitchesV {
        InstallerSwitchesV {
            custom: match self.custom {
                Some(c) => Some(c.switch@),
                None => None,
            },
        }
    }
}

/// The mathematical value of the installation metadata.
pub struct InstallationMetadataV {
    pub default_install_location: Option<Seq<char>>,
}

impl View for InstallationMetadata {
    type V = InstallationMetadataV;

    open spec fn view(&self) -> InstallationMetadataV {
        InstallationMetadataV { default_install_location: spec_opt_text(self.default_install_location) }
    }
}

/// The mathematical value of one installer record.
pub struct InstallerV {
    pub locale: Option<Seq<char>>,
    pub architecture: Option<Architecture>,
    pub installer_type: Option<InstallerType>,
    pub scope: Option<Scope>,
    pub product_code: Option<Seq<char>>,
    pub unsupported_os_architectures: Option<Seq<Architecture>>,
    pub apps_and_features_entries: Option<Seq<AppsAndFeaturesEntryV>>,
    pub elevation_requirement: Option<ElevationRequirement>,
    pub installation_metadata: Option<InstallationMetadataV>,
    pub switches: Option<InstallerSwitchesV>,
}

impl View for Installer {
    type V = InstallerV;

    open spec fn view(&self) -> InstallerV {
        InstallerV {
            locale: spec_opt_text(self.locale),
            architecture: self.architecture,
            installer_type: self.installer_type,
            scope: self.scope,
            product_code: spec_opt_text(self.product_code),
            unsupported_os_architectures: match self.unsupported_os_architectures {
                Some(v) => Some(v@),
                None => None,
            },
            apps_and_features_entries: match self.apps_and_features_entries {
                Some(v) => Some(v@.map_values(|e: AppsAndFeaturesEntry| e@)),
                None => None,
            },
            elevation_requirement: self.elevation_requirement,
            installation_metadata: match self.installation_metadata {
                Some(m) => Some(m@),
                None => None,
            },
            switches: match self.switches {
                Some(s) => Some(s@),
                None => None,
            },
        }
    }
}

/// The mathematical values of a list of installer records.
pub open spec fn spec_installers_view(installers: Seq<Installer>) -> Seq<InstallerV> {
    installers.map_values(|i: Installer| i@)
}

} // verus!
