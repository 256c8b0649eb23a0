use vstd::prelude::*;

verus! {

/// One element of a library's `rules` list, holding what the selection reads:
/// `action` and `os.name`, each present only where the manifest gives a string.
pub struct LibraryRule {
    pub action: Option<String>,
    pub os_name: Option<String>,
}

/// A library's `downloads.artifact` object: its `path` and `url` where they are strings.
pub struct ArtifactRef {
    pub path: Option<String>,
    pub url: Option<String>,
}

/// An entry of a library's `downloads.classifiers` object whose value is itself an
/// object: the entry's key and that object's `path` where it is a string.
pub struct NativeClassifier {
    pub key: String,
    pub path: Option<String>,
}

/// A library of a version manifest (Mojang or Fabric), as the launcher reads it.
pub struct LibraryEntry {
    /// `name`, a Maven coordinate `group:artifact:version`, where it is a string.
    pub name: Option<String>,
    /// `url`, the Maven repository of a Fabric library, where it is a string.
    pub url: Option<String>,
    /// `rules`, where it is an array.
    pub rules: Option<Vec<LibraryRule>>,
    /// Whether `natives` is an object.
    pub has_natives: bool,
    /// `downloads.artifact`, where it is an object.
    pub artifact: Option<ArtifactRef>,
    /// The object-valued entries of `downloads.classifiers`, in the manifest's order.
    pub classifiers: Vec<NativeClassifier>,
}

/// A version manifest (`<version>.json`), as the launcher reads it.
pub struct VersionDocument {
    /// `mainClass`, where it is a string.
    pub main_class: Option<String>,
    /// `inheritsFrom`, where it is a string.
    pub inherits_from: Option<String>,
    /// `assetIndex.id`, where it is a string.
    pub asset_index_id: Option<String>,
    /// `assetIndex.url`, where it is a string.
    pub asset_index_url: Option<String>,
    /// `downloads.client.url`, where it is a string.
    pub client_url: Option<String>,
    /// `libraries`, where it is an array.
    pub libraries: Option<Vec<LibraryEntry>>,
}

/// An element of the `versions` list of Mojang's version list.
pub struct ManifestVersion {
    /// `id`, where it is a string.
    pub id: Option<String>,
    /// `url`, where it is a string.
    pub url: Option<String>,
}

/// Mojang's list of game versions, with the manifest URL of each.
pub struct VersionManifest {
    /// `versions`, where it is an array.
    pub versions: Option<Vec<ManifestVersion>>,
}

/// An element of Fabric's list of loader versions.
pub struct LoaderEntry {
    /// `stable`, where it is a boolean.
    pub stable: Option<bool>,
    /// `version`, where it is a string.
    pub version: Option<String>,
}

/// An element of the `objects` of an asset index: its `hash` where it is a string.
pub struct AssetObject {
    pub hash: Option<String>,
}

/// The options the user interface hands to the launch command.
pub struct LaunchOptions {
    pub version: String,
    pub access_token: String,
    pub uuid: String,
    pub name: String,
}

} // verus!
