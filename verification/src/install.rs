use vstd::prelude::*;
use crate::model::{AssetObject, LibraryEntry, LoaderEntry, ManifestVersion, VersionDocument, VersionManifest};
use crate::text::{decimal, decimal_string, result_view};
use vstd::string::StringSliceAdditionalSpecFns;

verus! {

/// The first entry of Mojang's version list whose `id` is `version`.
pub open spec fn find_manifest_version(vs: Seq<ManifestVersion>, version: Seq<char>) -> Option<ManifestVersion>
    decreases vs.len(),
{
    if vs.len() == 0 {
        None
    } else if vs[0].id matches Some(id) && id@ == version {
        Some(vs[0])
    } else {
        find_manifest_version(vs.drop_first(), version)
    }
}

/// The URL of a version's manifest, or the error reported: `Manifest invalide` when the
/// list has no `versions` array, `Version <v> introuvable` when no entry has that id,
/// `URL invalide` when the first such entry has no URL.
pub open spec fn spec_find_version_url(manifest: VersionManifest, version: Seq<char>) -> Result<Seq<char>, Seq<char>> {
    match manifest.versions {
        None => Err("Manifest invalide"@),
        Some(vs) => match find_manifest_version(vs@, version) {
            None => Err("Version "@ + version + " introuvable"@),
            Some(v) => match v.url {
                Some(u) => Ok(u@),
                None => Err("URL invalide"@),
            },
        },
    }
}

/// Looks up the manifest URL of `version` in Mojang's version list.
pub fn find_version_url(manifest: &VersionManifest, version: &str) -> (r: Result<String, String>)
    ensures
        result_view(r) == spec_find_version_url(*manifest, version@),
{
    let vs = match &manifest.versions {
        Some(vs) => vs,
        None => return Err(String::from_str("Manifest invalide")),
    };
    let wanted = String::from_str(version);
    let n = vs.len();
    assert(vs@.skip(0) =~= vs@);
    for i in 0..n
        invariant
            n == vs@.len(),
            manifest.versions == Some(*vs),
            wanted@ == version@,
            find_manifest_version(vs@, version@) == find_manifest_version(vs@.skip(i as int), version@),
    {
        assert(vs@.skip(i as int).drop_first() =~= vs@.skip(i as int + 1));
        assert(vs@.skip(i as int)[0] == vs@[i as int]);
        let entry = &vs[i];
        let matches = match &entry.id {
            Some(id) => *id == wanted,
            None => false,
        };
        if matches {
            assert(find_manifest_version(vs@.skip(i as int), version@) == Some(vs@[i as int]));
            return match &entry.url {
                Some(u) => Ok(u.clone()),
                None => Err(String::from_str("URL invalide")),
            };
        }
    }
    assert(vs@.skip(n as int) =~= Seq::<ManifestVersion>::empty());
    let mut msg = String::from_str("Version ");
    msg.append(version);
    msg.append(" introuvable");
    Err(msg)
}

/// The asset index of a version, as `(id, url)`, or the error reported.
pub open spec fn spec_asset_index_info(doc: VersionDocument) -> Result<(Seq<char>, Seq<char>), Seq<char>> {
    match doc.asset_index_id {
        None => Err("assetIndex id introuvable"@),
        Some(id) => match doc.asset_index_url {
            None => Err("assetIndex url introuvable"@),
            Some(url) => Ok((id@, url@)),
        },
    }
}

/// Reads the id and URL of a version's asset index.
pub fn asset_index_info(doc: &VersionDocument) -> (r: Result<(String, String), String>)
    ensures
        match r {
            Ok((id, url)) => spec_asset_index_info(*doc) == Ok::<(Seq<char>, Seq<char>), Seq<char>>((id@, url@)),
            Err(e) => spec_asset_index_info(*doc) == Err::<(Seq<char>, Seq<char>), Seq<char>>(e@),
        },
{
    let id = match &doc.asset_index_id {
        Some(id) => id.clone(),
        None => return Err(String::from_str("assetIndex id introuvable")),
    };
    let url = match &doc.asset_index_url {
        Some(url) => url.clone(),
        None => return Err(String::from_str("assetIndex url introuvable")),
    };
    Ok((id, url))
}

/// Reads the download URL of a version's client jar.
pub fn client_jar_url(doc: &VersionDocument) -> (r: Result<String, String>)
    ensures
        result_view(r) == match doc.client_url {
            Some(u) => Ok(u@),
            None => Err("URL JAR introuvable"@),
        },
{
    match &doc.client_url {
        Some(u) => Ok(u.clone()),
        None => Err(String::from_str("URL JAR introuvable")),
    }
}

/// Reads the list of a version's libraries.
pub fn version_libraries(doc: &VersionDocument) -> (r: Result<&Vec<LibraryEntry>, String>)
    ensures
        match r {
            Ok(libs) => doc.libraries == Some(*libs),
            Err(e) => doc.libraries is None && e@ == "libraries introuvable"@,
        },
{
    match &doc.libraries {
        Some(l) => Ok(l),
        None => Err(String::from_str("libraries introuvable")),
    }
}

/// A library jar to download during installation: its path below the library
/// directory and its URL.
pub struct LibraryDownload {
    pub path: String,
    pub url: String,
}

/// What installation does with a library's artifact.
pub enum ArtifactStep {
    /// The library has no `downloads.artifact` object: nothing to fetch.
    Absent,
    /// The artifact lacks a non-empty path or URL: the library is passed over,
    /// without a progress notification.
    Incomplete,
    /// The artifact is fetched from the URL to the path, unless already present.
    Download(LibraryDownload),
}

/// What installation does with a library's artifact: `None` where it has none,
/// `Some(None)` where its path or URL is missing or empty, else its path and URL.
pub open spec fn spec_artifact_step(lib: LibraryEntry) -> Option<Option<(Seq<char>, Seq<char>)>> {
    match lib.artifact {
        None => None,
        Some(a) => match (a.path, a.url) {
            (Some(p), Some(u)) => if p@.len() > 0 && u@.len() > 0 {
                Some(Some((p@, u@)))
            } else {
                Some(None)
            },
            _ => Some(None),
        },
    }
}

/// Decides what installation does with a library's artifact.
pub fn artifact_step(lib: &LibraryEntry) -> (r: ArtifactStep)
    ensures
        match r {
            ArtifactStep::Absent => spec_artifact_step(*lib) is None,
            ArtifactStep::Incomplete => spec_artifact_step(*lib) == Some(
                None::<(Seq<char>, Seq<char>)>,
            ),
            ArtifactStep::Download(d) => spec_artifact_step(*lib) == Some(Some((d.path@, d.url@))),
        },
{
    let a = match &lib.artifact {
        Some(a) => a,
        None => return ArtifactStep::Absent,
    };
    match (&a.path, &a.url) {
        (Some(p), Some(u)) => {
            if p.as_str().is_empty() || u.as_str().is_empty() {
                ArtifactStep::Incomplete
            } else {
                ArtifactStep::Download(LibraryDownload { path: p.clone(), url: u.clone() })
            }
        },
        _ => ArtifactStep::Incomplete,
    }
}

/// One progress notification of an installation.
pub struct ProgressEvent {
    pub stage: String,
    pub percent: usize,
    pub label: String,
}

/// The fixed steps of an installation that report progress.
#[derive(Clone, Copy, Debug, PartialEq, Eq, Structural)]
pub enum InstallStep {
    /// Fetching Mojang's version list.
    Manifest,
    /// Everything was already present.
    AlreadyInstalled,
    /// Downloading the client jar.
    ClientJar,
    /// Downloading the asset index.
    AssetIndex,
    /// The installation finished.
    Done,
}

/// The stage, percentage and label reported at a fixed step.
pub open spec fn spec_step_event(step: InstallStep) -> (Seq<char>, nat, Seq<char>) {
    match step {
        InstallStep::Manifest => ("manifest"@, 0, "Récupération du manifest..."@),
        InstallStep::AlreadyInstalled => ("done"@, 100, "Déjà installé ✅"@),
        InstallStep::ClientJar => ("jar"@, 5, "Téléchargement du client Minecraft..."@),
        InstallStep::AssetIndex => ("asset_index"@, 30, "Téléchargement de l'index des assets..."@),
        InstallStep::Done => ("done"@, 100, "Installation terminée ✅"@),
    }
}

/// The progress notification of a fixed step.
pub fn step_event(step: InstallStep) -> (e: ProgressEvent)
    ensures
        (e.stage@, e.percent as nat, e.label@) == spec_step_event(step),
{
    let (stage, percent, label): (&str, usize, &str) = match step {
        InstallStep::Manifest => ("manifest", 0, "Récupération du manifest..."),
        InstallStep::AlreadyInstalled => ("done", 100, "Déjà installé ✅"),
        InstallStep::ClientJar => ("jar", 5, "Téléchargement du client Minecraft..."),
        InstallStep::AssetIndex => ("asset_index", 30, "Téléchargement de l'index des assets..."),
        InstallStep::Done => ("done", 100, "Installation terminée ✅"),
    };
    ProgressEvent { stage: String::from_str(stage), percent, label: String::from_str(label) }
}

/// `n`, or 1 where `n` is 0.
pub open spec fn at_least_one(n: nat) -> nat {
    if n == 0 { 1 } else { n }
}

/// The percentage reported after library `i` of `total`.
pub open spec fn spec_library_percent(i: nat, total: nat) -> nat {
    10 + i * 20 / at_least_one(total)
}

/// The percentage reported after `count` of `total` assets.
pub open spec fn spec_asset_percent(count: nat, total: nat) -> nat {
    30 + count * 70 / at_least_one(total)
}

/// Whether progress is reported after `count` of `total` assets: every 50 assets
/// and at the last one.
pub open spec fn spec_asset_reported(count: nat, total: nat) -> bool {
    count % 50 == 0 || count == total
}

/// The progress notification after library `i` (counted from 0) of `total`,
/// labelled `Libraries <i + 1>/<total>`.
pub fn library_progress(i: usize, total: usize) -> (e: ProgressEvent)
    requires
        i < total,
        i <= usize::MAX / 20,
    ensures
        e.stage@ == "libraries"@,
        e.percent == spec_library_percent(i as nat, total as nat),
        e.label@ == "Libraries "@ + decimal(i as nat + 1) + "/"@ + decimal(total as nat),
{
    let divisor = if total == 0 { 1 } else { total };
    assert(i * 20 <= usize::MAX) by (nonlinear_arith)
        requires
            i <= usize::MAX / 20,
    ;
    assert((i * 20) as int / (divisor as int) < 20) by (nonlinear_arith)
        requires
            divisor >= 1,
            i < divisor,
    ;
    let percent = 10 + (i * 20 / divisor);
    let mut label = String::from_str("Libraries ");
    let done = decimal_string((i + 1) as u64);
    let all = decimal_string(total as u64);
    label.append(done.as_str());
    label.append("/");
    label.append(all.as_str());
    ProgressEvent { stage: String::from_str("libraries"), percent, label }
}

/// The progress notification after `count` of `total` assets, where one is due
/// (every 50 assets and at the last), labelled `Assets <count>/<total>`.
pub fn asset_progress(count: usize, total: usize) -> (e: Option<ProgressEvent>)
    requires
        count <= total,
        count <= usize::MAX / 70,
    ensures
        e is Some <==> spec_asset_reported(count as nat, total as nat),
        e matches Some(ev) ==> {
            &&& ev.stage@ == "assets"@
            &&& ev.percent == spec_asset_percent(count as nat, total as nat)
            &&& ev.label@ == "Assets "@ + decimal(count as nat) + "/"@ + decimal(total as nat)
        },
{
    if !(count % 50 == 0 || count == total) {
        return None;
    }
    let divisor = if total == 0 { 1 } else { total };
    assert(count * 70 <= usize::MAX) by (nonlinear_arith)
        requires
            count <= usize::MAX / 70,
    ;
    assert((count * 70) as int / (divisor as int) <= 70) by (nonlinear_arith)
        requires
            divisor >= 1,
            count <= divisor,
    ;
    let percent = 30 + (count * 70 / divisor);
    let mut label = String::from_str("Assets ");
    let done = decimal_string(count as u64);
    let all = decimal_string(total as u64);
    label.append(done.as_str());
    label.append("/");
    label.append(all.as_str());
    Some(ProgressEvent { stage: String::from_str("assets"), percent, label })
}

/// Library progress stays within 10 to 29 percent and never decreases.
pub proof fn law_library_progress_bounds(i: nat, j: nat, total: nat)
    requires
        i <= j < total,
    ensures
        10 <= spec_library_percent(i, total) <= spec_library_percent(j, total) < 30,
{
    assert(i * 20 / total <= j * 20 / total) by (nonlinear_arith)
        requires
            i <= j,
            total > 0,
    ;
    assert(j * 20 / total < 20) by (nonlinear_arith)
        requires
            j < total,
    ;
}

/// Asset progress stays within 30 to 100 percent, never decreases, and reaches
/// 100 exactly at the last asset.
pub proof fn law_asset_progress_bounds(i: nat, j: nat, total: nat)
    requires
        i <= j <= total,
        total > 0,
    ensures
        30 <= spec_asset_percent(i, total) <= spec_asset_percent(j, total) <= 100,
        spec_asset_percent(j, total) == 100 <==> j == total,
        spec_asset_reported(total, total),
{
    assert(i * 70 / total <= j * 70 / total) by (nonlinear_arith)
        requires
            i <= j,
            total > 0,
    ;
    assert(j * 70 / total <= 70) by (nonlinear_arith)
        requires
            j <= total,
            total > 0,
    ;
    assert(total * 70 / total == 70) by (nonlinear_arith)
        requires
            total > 0,
    ;
    assert(j < total ==> j * 70 / total < 70) by (nonlinear_arith)
        requires
            total > 0,
    ;
}


/// The first loader of Fabric's list marked `stable: true`.
pub open spec fn find_stable_loader(ls: Seq<LoaderEntry>) -> Option<LoaderEntry>
    decreases ls.len(),
{
    if ls.len() == 0 {
        None
    } else if ls[0].stable == Some(true) {
        Some(ls[0])
    } else {
        find_stable_loader(ls.drop_first())
    }
}

/// The error when no usable stable Fabric loader is listed.
pub open spec fn missing_loader_error() -> Seq<char> {
    "Loader Fabric introuvable"@
}

/// The version of the first stable Fabric loader, where the list is an array and
/// that loader names its version.
pub open spec fn spec_stable_loader_version(loaders: Option<Vec<LoaderEntry>>) -> Result<Seq<char>, Seq<char>> {
    match loaders {
        None => Err(missing_loader_error()),
        Some(ls) => match find_stable_loader(ls@) {
            Some(l) => match l.version {
                Some(v) => Ok(v@),
                None => Err(missing_loader_error()),
            },
            None => Err(missing_loader_error()),
        },
    }
}

/// Picks the version of the first stable Fabric loader.
pub fn stable_loader_version(loaders: &Option<Vec<LoaderEntry>>) -> (r: Result<String, String>)
    ensures
        result_view(r) == spec_stable_loader_version(*loaders),
{
    let ls = match loaders {
        Some(ls) => ls,
        None => return Err(String::from_str("Loader Fabric introuvable")),
    };
    let n = ls.len();
    assert(ls@.skip(0) =~= ls@);
    for i in 0..n
        invariant
            n == ls@.len(),
            *loaders == Some(*ls),
            find_stable_loader(ls@) == find_stable_loader(ls@.skip(i as int)),
    {
        assert(ls@.skip(i as int).drop_first() =~= ls@.skip(i as int + 1));
        assert(ls@.skip(i as int)[0] == ls@[i as int]);
        if ls[i].stable == Some(true) {
            return match &ls[i].version {
                Some(v) => Ok(v.clone()),
                None => Err(String::from_str("Loader Fabric introuvable")),
            };
        }
    }
    assert(ls@.skip(n as int) =~= Seq::<LoaderEntry>::empty());
    Err(String::from_str("Loader Fabric introuvable"))
}

/// The id of a Fabric version: `fabric-loader-<loader>-<minecraft>`.
pub open spec fn spec_fabric_version_id(loader: Seq<char>, minecraft: Seq<char>) -> Seq<char> {
    "fabric-loader-"@ + loader + "-"@ + minecraft
}

/// Returns the id under which a Fabric version is installed.
pub fn fabric_version_id(loader: &str, minecraft: &str) -> (id: String)
    ensures
        id@ == spec_fabric_version_id(loader@, minecraft@),
{
    let mut id = String::from_str("fabric-loader-");
    id.append(loader);
    id.append("-");
    id.append(minecraft);
    id
}

/// The URL of the launcher profile of a Fabric loader for a game version.
pub open spec fn spec_fabric_profile_url(minecraft: Seq<char>, loader: Seq<char>) -> Seq<char> {
    "https://meta.fabricmc.net/v2/versions/loader/"@ + minecraft + "/"@ + loader + "/profile/json"@
}

/// Returns the URL of the Fabric profile of `loader` for `minecraft`.
pub fn fabric_profile_url(minecraft: &str, loader: &str) -> (url: String)
    ensures
        url@ == spec_fabric_profile_url(minecraft@, loader@),
{
    let mut url = String::from_str("https://meta.fabricmc.net/v2/versions/loader/");
    url.append(minecraft);
    url.append("/");
    url.append(loader);
    url.append("/profile/json");
    url
}

/// The error reported when Fabric refuses a profile, quoting the response body.
pub fn fabric_profile_error(body: &str) -> (e: String)
    ensures
        e@ == "Fabric JSON error: "@ + body@,
{
    let mut e = String::from_str("Fabric JSON error: ");
    e.append(body);
    e
}

/// The host that serves asset objects.
pub open spec fn asset_host() -> Seq<char> {
    "https://resources.download.minecraft.net/"@
}

/// An asset object to download: the two-character directory it goes into, its
/// hash (its file name) and its URL.
pub struct AssetDownload {
    pub prefix: String,
    pub hash: String,
    pub url: String,
}

/// The hash of an asset object, empty where it has none.
pub open spec fn spec_asset_hash(obj: AssetObject) -> Seq<char> {
    match obj.hash {
        Some(h) => h@,
        None => Seq::<char>::empty(),
    }
}

/// Where an asset object can be split after its first two bytes: true of every
/// hash Mojang gives (they are hexadecimal), false of a few others, on which the
/// launcher stops.
pub open spec fn asset_hash_splittable(obj: AssetObject) -> bool {
    let bytes = vstd::utf8::encode_utf8(spec_asset_hash(obj));
    bytes.len() < 2 || vstd::utf8::is_char_boundary(bytes, 2)
}

/// Decides where an asset object is stored and fetched from. Objects whose hash
/// is shorter than two bytes are skipped; otherwise the directory is the hash's
/// first two bytes and the URL is `<host><prefix>/<hash>`.
pub fn asset_object_download(obj: &AssetObject) -> (r: Option<AssetDownload>)
    requires
        asset_hash_splittable(*obj),
    ensures
        r is None <==> vstd::utf8::encode_utf8(spec_asset_hash(*obj)).len() < 2,
        r matches Some(d) ==> {
            &&& vstd::utf8::encode_utf8(d.prefix@) == vstd::utf8::encode_utf8(
                spec_asset_hash(*obj),
            ).subrange(0, 2)
            &&& spec_asset_hash(*obj).len() >= d.prefix@.len()
            &&& spec_asset_hash(*obj).subrange(0, d.prefix@.len() as int) == d.prefix@
            &&& d.hash@ == spec_asset_hash(*obj)
            &&& d.url@ == asset_host() + d.prefix@ + "/"@ + d.hash@
        },
{
    let hash: &str = match &obj.hash {
        Some(h) => h.as_str(),
        None => "",
    };
    proof {
        reveal_strlit("");
        assert(hash@ == spec_asset_hash(*obj));
        vstd::utf8::encode_utf8_valid_utf8(hash@);
        assert(hash.spec_bytes().len() < 2 ==> !vstd::utf8::is_char_boundary(hash.spec_bytes(), 2));
    }
    if !hash.is_char_boundary(2) {
        return None;
    }
    let (head, tail) = hash.split_at(2);
    proof {
        lemma_split_chars(hash, head, tail, 2);
    }
    let prefix = head.to_owned();
    let mut url = String::from_str("https://resources.download.minecraft.net/");
    url.append(head);
    url.append("/");
    url.append(hash);
    Some(AssetDownload { prefix, hash: hash.to_owned(), url })
}

/// Splitting a string's bytes at a character boundary splits its characters.
proof fn lemma_split_chars(s: &str, head: &str, tail: &str, mid: int)
    requires
        vstd::utf8::is_char_boundary(s.spec_bytes(), mid),
        head.spec_bytes() == s.spec_bytes().subrange(0, mid),
        tail.spec_bytes() == s.spec_bytes().subrange(mid, s.spec_bytes().len() as int),
    ensures
        s@ == head@ + tail@,
{
    broadcast use vstd::utf8::encode_utf8_decode_utf8, vstd::utf8::decode_utf8_split;
    vstd::utf8::encode_utf8_valid_utf8(s@);
    assert(s@ == vstd::utf8::decode_utf8(s.spec_bytes()));
    vstd::utf8::decode_utf8_split(s.spec_bytes(), mid);
    assert(head@ == vstd::utf8::decode_utf8(head.spec_bytes()));
    assert(tail@ == vstd::utf8::decode_utf8(tail.spec_bytes()));
}


/// Whether an entry of Mojang's version list has exactly the id `version`.
pub open spec fn has_version_id(entry: ManifestVersion, version: Seq<char>) -> bool {
    entry.id matches Some(id) && id@ == version
}

proof fn lemma_find_manifest_version(vs: Seq<ManifestVersion>, version: Seq<char>, k: int)
    requires
        0 <= k < vs.len(),
        has_version_id(vs[k], version),
        forall|j: int| 0 <= j < k ==> !has_version_id(#[trigger] vs[j], version),
    ensures
        find_manifest_version(vs, version) == Some(vs[k]),
    decreases k,
{
    if k > 0 {
        assert(!has_version_id(vs[0], version));
        let rest = vs.drop_first();
        assert forall|j: int| 0 <= j < k - 1 implies !has_version_id(#[trigger] rest[j], version) by {
            assert(rest[j] == vs[j + 1]);
        }
        assert(rest[k - 1] == vs[k]);
        lemma_find_manifest_version(rest, version, k - 1);
    }
}

proof fn lemma_find_manifest_version_none(vs: Seq<ManifestVersion>, version: Seq<char>)
    requires
        forall|j: int| 0 <= j < vs.len() ==> !has_version_id(#[trigger] vs[j], version),
    ensures
        find_manifest_version(vs, version) is None,
    decreases vs.len(),
{
    if vs.len() > 0 {
        assert(!has_version_id(vs[0], version));
        let rest = vs.drop_first();
        assert forall|j: int| 0 <= j < rest.len() implies !has_version_id(#[trigger] rest[j], version) by {
            assert(rest[j] == vs[j + 1]);
        }
        lemma_find_manifest_version_none(rest, version);
    }
}

/// The version looked up is the first entry whose id is exactly the version asked
/// for (no prefix or other near match): its URL, or `URL invalide` where it has none.
pub proof fn law_version_url_is_first_exact_match(manifest: VersionManifest, version: Seq<char>, k: int)
    requires
        manifest.versions is Some,
        0 <= k < manifest.versions.unwrap()@.len(),
        has_version_id(manifest.versions.unwrap()@[k], version),
        forall|j: int|
            0 <= j < k ==> !has_version_id(#[trigger] manifest.versions.unwrap()@[j], version),
    ensures
        spec_find_version_url(manifest, version) == match manifest.versions.unwrap()@[k].url {
            Some(u) => Ok::<Seq<char>, Seq<char>>(u@),
            None => Err("URL invalide"@),
        },
{
    lemma_find_manifest_version(manifest.versions.unwrap()@, version, k);
}

/// A version that no entry names exactly is reported missing.
pub proof fn law_version_missing(manifest: VersionManifest, version: Seq<char>)
    requires
        manifest.versions is Some,
        forall|j: int|
            0 <= j < manifest.versions.unwrap()@.len() ==> !has_version_id(
                #[trigger] manifest.versions.unwrap()@[j],
                version,
            ),
    ensures
        spec_find_version_url(manifest, version) == Err::<Seq<char>, Seq<char>>(
            "Version "@ + version + " introuvable"@,
        ),
{
    lemma_find_manifest_version_none(manifest.versions.unwrap()@, version);
}

/// A URL found belongs to an entry whose id is exactly the version asked for.
pub proof fn law_version_url_comes_from_match(manifest: VersionManifest, version: Seq<char>)
    requires
        spec_find_version_url(manifest, version) is Ok,
    ensures
        exists|k: int|
            0 <= k < manifest.versions.unwrap()@.len() && #[trigger] has_version_id(
                manifest.versions.unwrap()@[k],
                version,
            ) && manifest.versions.unwrap()@[k].url is Some && spec_find_version_url(manifest, version)
                == Ok::<Seq<char>, Seq<char>>(manifest.versions.unwrap()@[k].url.unwrap()@),
{
    let vs = manifest.versions.unwrap()@;
    if forall|j: int| 0 <= j < vs.len() ==> !has_version_id(#[trigger] vs[j], version) {
        lemma_find_manifest_version_none(vs, version);
    } else {
        let k0 = choose|j: int| 0 <= j < vs.len() && has_version_id(#[trigger] vs[j], version);
        let k = lemma_first_match(vs, version, k0);
        lemma_find_manifest_version(vs, version, k);
    }
}

proof fn lemma_first_match(vs: Seq<ManifestVersion>, version: Seq<char>, k0: int) -> (k: int)
    requires
        0 <= k0 < vs.len(),
        has_version_id(vs[k0], version),
    ensures
        0 <= k <= k0,
        has_version_id(vs[k], version),
        forall|j: int| 0 <= j < k ==> !has_version_id(#[trigger] vs[j], version),
    decreases k0,
{
    if exists|j: int| 0 <= j < k0 && has_version_id(#[trigger] vs[j], version) {
        let j = choose|j: int| 0 <= j < k0 && has_version_id(#[trigger] vs[j], version);
        lemma_first_match(vs, version, j)
    } else {
        k0
    }
}

proof fn lemma_find_stable_loader(ls: Seq<LoaderEntry>, k: int)
    requires
        0 <= k < ls.len(),
        ls[k].stable == Some(true),
        forall|j: int| 0 <= j < k ==> (#[trigger] ls[j]).stable != Some(true),
    ensures
        find_stable_loader(ls) == Some(ls[k]),
    decreases k,
{
    if k > 0 {
        assert(ls[0].stable != Some(true));
        let rest = ls.drop_first();
        assert forall|j: int| 0 <= j < k - 1 implies (#[trigger] rest[j]).stable != Some(true) by {
            assert(rest[j] == ls[j + 1]);
        }
        assert(rest[k - 1] == ls[k]);
        lemma_find_stable_loader(rest, k - 1);
    }
}

proof fn lemma_find_stable_loader_none(ls: Seq<LoaderEntry>)
    requires
        forall|j: int| 0 <= j < ls.len() ==> (#[trigger] ls[j]).stable != Some(true),
    ensures
        find_stable_loader(ls) is None,
    decreases ls.len(),
{
    if ls.len() > 0 {
        assert(ls[0].stable != Some(true));
        let rest = ls.drop_first();
        assert forall|j: int| 0 <= j < rest.len() implies (#[trigger] rest[j]).stable != Some(true) by {
            assert(rest[j] == ls[j + 1]);
        }
        lemma_find_stable_loader_none(rest);
    }
}

/// The loader chosen is the first one of the list marked stable: its version, or
/// the missing-loader error where it names none. In particular a stable first
/// entry with a version is always chosen.
pub proof fn law_first_stable_loader_chosen(ls: Seq<LoaderEntry>, k: int, loaders: Option<Vec<LoaderEntry>>)
    requires
        loaders matches Some(v) && v@ == ls,
        0 <= k < ls.len(),
        ls[k].stable == Some(true),
        forall|j: int| 0 <= j < k ==> (#[trigger] ls[j]).stable != Some(true),
    ensures
        spec_stable_loader_version(loaders) == match ls[k].version {
            Some(v) => Ok::<Seq<char>, Seq<char>>(v@),
            None => Err(missing_loader_error()),
        },
{
    lemma_find_stable_loader(ls, k);
}

/// A list with no stable loader yields the missing-loader error.
pub proof fn law_no_stable_loader(ls: Seq<LoaderEntry>, loaders: Option<Vec<LoaderEntry>>)
    requires
        loaders matches Some(v) && v@ == ls,
        forall|j: int| 0 <= j < ls.len() ==> (#[trigger] ls[j]).stable != Some(true),
    ensures
        spec_stable_loader_version(loaders) == Err::<Seq<char>, Seq<char>>(missing_loader_error()),
{
    lemma_find_stable_loader_none(ls);
}

} // verus!
