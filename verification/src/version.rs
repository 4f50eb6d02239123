//! Game version listings: the index of published versions and the download
//! descriptor of one version. Plain data, filled in by the loader at the
//! boundary.
use vstd::prelude::*;

verus! {

/// The index of published game versions.
#[derive(Debug)]
pub struct Versions {
    pub versions: Vec<VersionsVersion>,
}

/// One entry of the version index.
#[derive(Debug)]
pub struct VersionsVersion {
    pub id: String,
    pub url: String,
}

/// The manifest of one game version.
#[derive(Debug)]
pub struct Version {
    pub downloads: VersionDownloads,
}

/// The downloads a version manifest offers.
#[derive(Debug)]
pub struct VersionDownloads {
    pub client: VersionDownload,
}

/// One downloadable artifact.
#[derive(Debug)]
pub struct VersionDownload {
    pub url: String,
    pub size: u32,
}

} // verus!
