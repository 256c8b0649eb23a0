use sodium_launcher::install::{
    asset_index_info, asset_object_download, asset_progress, client_jar_url, fabric_profile_error,
    fabric_profile_url, fabric_version_id, find_version_url, artifact_step, library_progress,
    stable_loader_version, step_event, version_libraries, ArtifactStep, InstallStep,
};
use sodium_launcher::launch::{
    classpath_libraries, classpath_string, java_arguments, library_role, main_class, native_jars, plan_launch,
    LibraryRole,
};
use sodium_launcher::maven::{fabric_library_download, maven_artifact, trim_end_matches_char};
use sodium_launcher::model::{
    ArtifactRef, AssetObject, LaunchOptions, LibraryEntry, LibraryRule, LoaderEntry,
    ManifestVersion, NativeClassifier, VersionDocument, VersionManifest,
};
use sodium_launcher::platform::Platform;

fn s(x: &str) -> String {
    x.to_string()
}

fn empty_lib() -> LibraryEntry {
    LibraryEntry { name: None, url: None, rules: None, has_natives: false, artifact: None, classifiers: vec![] }
}

fn doc() -> VersionDocument {
    VersionDocument {
        main_class: None,
        inherits_from: None,
        asset_index_id: None,
        asset_index_url: None,
        client_url: None,
        libraries: None,
    }
}

#[test]
fn maven_path_of_fabric_loader() {
    let m = maven_artifact("net.fabricmc:fabric-loader:0.15.11").unwrap();
    assert_eq!(m.jar_name, "fabric-loader-0.15.11.jar");
    assert_eq!(m.lib_path, "net/fabricmc/fabric-loader/0.15.11/fabric-loader-0.15.11.jar");
}

#[test]
fn maven_needs_two_colons() {
    assert!(maven_artifact("net.fabricmc:fabric-loader").is_none());
    assert!(maven_artifact("").is_none());
    let m = maven_artifact("g.h:a:1.0:natives").unwrap();
    assert_eq!(m.lib_path, "g/h/a/1.0:natives/a-1.0:natives.jar");
    let e = maven_artifact("::").unwrap();
    assert_eq!(e.lib_path, "///-.jar");
}

#[test]
fn trailing_slashes_trimmed() {
    assert_eq!(trim_end_matches_char("https://maven.fabricmc.net///", '/'), "https://maven.fabricmc.net");
    assert_eq!(trim_end_matches_char("///", '/'), "");
    assert_eq!(trim_end_matches_char("abc", '/'), "abc");
}

#[test]
fn fabric_download_urls() {
    let mut lib = empty_lib();
    lib.name = Some(s("org.ow2.asm:asm:9.6"));
    let d = fabric_library_download(&lib).unwrap();
    assert_eq!(d.download_url, "https://maven.fabricmc.net/org/ow2/asm/asm/9.6/asm-9.6.jar");
    assert_eq!(d.lib_path, "org/ow2/asm/asm/9.6/asm-9.6.jar");
    assert_eq!(d.jar_name, "asm-9.6.jar");
    lib.url = Some(s("https://repo.example.org/maven"));
    let d = fabric_library_download(&lib).unwrap();
    assert_eq!(d.download_url, "https://repo.example.org/maven/org/ow2/asm/asm/9.6/asm-9.6.jar");
    lib.name = None;
    assert!(fabric_library_download(&lib).is_none());
}

#[test]
fn version_url_lookup() {
    let manifest = VersionManifest {
        versions: Some(vec![
            ManifestVersion { id: Some(s("1.21")), url: Some(s("https://x/1.21.json")) },
            ManifestVersion { id: Some(s("1.20.4")), url: None },
            ManifestVersion { id: Some(s("1.20.4")), url: Some(s("https://x/other.json")) },
        ]),
    };
    assert_eq!(find_version_url(&manifest, "1.21"), Ok(s("https://x/1.21.json")));
    assert_eq!(find_version_url(&manifest, "1.20.4"), Err(s("URL invalide")));
    assert_eq!(find_version_url(&manifest, "1.8"), Err(s("Version 1.8 introuvable")));
    let broken = VersionManifest { versions: None };
    assert_eq!(find_version_url(&broken, "1.21"), Err(s("Manifest invalide")));
}

#[test]
fn asset_index_and_client_jar() {
    let mut d = doc();
    assert_eq!(asset_index_info(&d), Err(s("assetIndex id introuvable")));
    d.asset_index_id = Some(s("17"));
    assert_eq!(asset_index_info(&d), Err(s("assetIndex url introuvable")));
    d.asset_index_url = Some(s("https://x/17.json"));
    assert_eq!(asset_index_info(&d), Ok((s("17"), s("https://x/17.json"))));
    assert_eq!(client_jar_url(&d), Err(s("URL JAR introuvable")));
    d.client_url = Some(s("https://x/client.jar"));
    assert_eq!(client_jar_url(&d), Ok(s("https://x/client.jar")));
    assert_eq!(version_libraries(&d).err(), Some(s("libraries introuvable")));
    d.libraries = Some(vec![empty_lib()]);
    assert_eq!(version_libraries(&d).unwrap().len(), 1);
}

#[test]
fn library_downloads_need_path_and_url() {
    let mut lib = empty_lib();
    assert!(matches!(artifact_step(&lib), ArtifactStep::Absent));
    lib.artifact = Some(ArtifactRef { path: Some(s("a/b.jar")), url: Some(s("")) });
    assert!(matches!(artifact_step(&lib), ArtifactStep::Incomplete));
    lib.artifact = Some(ArtifactRef { path: None, url: Some(s("https://x/a/b.jar")) });
    assert!(matches!(artifact_step(&lib), ArtifactStep::Incomplete));
    lib.artifact = Some(ArtifactRef { path: Some(s("a/b.jar")), url: Some(s("https://x/a/b.jar")) });
    match artifact_step(&lib) {
        ArtifactStep::Download(d) => {
            assert_eq!(d.path, "a/b.jar");
            assert_eq!(d.url, "https://x/a/b.jar");
        }
        _ => panic!("expected a download"),
    }
}

#[test]
fn main_class_required() {
    let mut d = doc();
    assert_eq!(main_class(&d), Err(s("mainClass introuvable")));
    d.main_class = Some(s("Main"));
    assert_eq!(main_class(&d), Ok(s("Main")));
}

#[test]
fn progress_events() {
    let e = library_progress(0, 4);
    assert_eq!((e.stage.as_str(), e.percent, e.label.as_str()), ("libraries", 10, "Libraries 1/4"));
    let e = library_progress(3, 4);
    assert_eq!((e.percent, e.label.as_str()), (25, "Libraries 4/4"));
    let e = asset_progress(50, 120).unwrap();
    assert_eq!((e.stage.as_str(), e.percent, e.label.as_str()), ("assets", 59, "Assets 50/120"));
    assert!(asset_progress(51, 120).is_none());
    let e = asset_progress(120, 120).unwrap();
    assert_eq!((e.percent, e.label.as_str()), (100, "Assets 120/120"));
    let e = asset_progress(0, 0).unwrap();
    assert_eq!(e.percent, 30);
    let e = step_event(InstallStep::AlreadyInstalled);
    assert_eq!((e.stage.as_str(), e.percent, e.label.as_str()), ("done", 100, "Déjà installé ✅"));
    let e = step_event(InstallStep::ClientJar);
    assert_eq!((e.stage.as_str(), e.percent), ("jar", 5));
}

#[test]
fn asset_objects() {
    let d = asset_object_download(&AssetObject { hash: Some(s("bdf48ef6b5d0d23bbb02e17d04865216179f510a")) }).unwrap();
    assert_eq!(d.prefix, "bd");
    assert_eq!(d.hash, "bdf48ef6b5d0d23bbb02e17d04865216179f510a");
    assert_eq!(d.url, "https://resources.download.minecraft.net/bd/bdf48ef6b5d0d23bbb02e17d04865216179f510a");
    assert!(asset_object_download(&AssetObject { hash: Some(s("a")) }).is_none());
    assert!(asset_object_download(&AssetObject { hash: None }).is_none());
    let d = asset_object_download(&AssetObject { hash: Some(s("é1")) }).unwrap();
    assert_eq!(d.prefix, "é");
}

#[test]
fn stable_loader() {
    let loaders = Some(vec![
        LoaderEntry { stable: Some(false), version: Some(s("0.16.0-beta")) },
        LoaderEntry { stable: Some(true), version: Some(s("0.15.11")) },
        LoaderEntry { stable: Some(true), version: Some(s("0.15.10")) },
    ]);
    assert_eq!(stable_loader_version(&loaders), Ok(s("0.15.11")));
    assert_eq!(stable_loader_version(&None), Err(s("Loader Fabric introuvable")));
    let odd = Some(vec![LoaderEntry { stable: Some(true), version: None }]);
    assert_eq!(stable_loader_version(&odd), Err(s("Loader Fabric introuvable")));
}

#[test]
fn fabric_ids_and_urls() {
    assert_eq!(fabric_version_id("0.15.11", "1.21"), "fabric-loader-0.15.11-1.21");
    assert_eq!(
        fabric_profile_url("1.21", "0.15.11"),
        "https://meta.fabricmc.net/v2/versions/loader/1.21/0.15.11/profile/json"
    );
    assert_eq!(fabric_profile_error("nope"), "Fabric JSON error: nope");
}

fn native_lib() -> LibraryEntry {
    let mut lib = empty_lib();
    lib.has_natives = true;
    lib.classifiers = vec![
        NativeClassifier { key: s("natives-linux"), path: Some(s("org/lwjgl/lwjgl-natives-linux.jar")) },
        NativeClassifier { key: s("natives-windows"), path: Some(s("")) },
    ];
    lib
}

#[test]
fn library_roles() {
    let mut excluded = empty_lib();
    excluded.rules = Some(vec![LibraryRule { action: Some(s("allow")), os_name: Some(s("osx")) }]);
    assert!(matches!(library_role(&excluded, Platform::Linux), LibraryRole::Excluded));
    match library_role(&native_lib(), Platform::Linux) {
        LibraryRole::Native(Some(p)) => assert_eq!(p, "org/lwjgl/lwjgl-natives-linux.jar"),
        _ => panic!("expected a native jar"),
    }
    assert!(matches!(library_role(&native_lib(), Platform::Windows), LibraryRole::Native(None)));
    assert!(matches!(library_role(&native_lib(), Platform::MacOs), LibraryRole::Native(None)));
    let mut art = empty_lib();
    art.artifact = Some(ArtifactRef { path: Some(s("com/x/x.jar")), url: None });
    art.name = Some(s("com:x:1"));
    match library_role(&art, Platform::Linux) {
        LibraryRole::Artifact(p) => assert_eq!(p, "com/x/x.jar"),
        _ => panic!("expected an artifact"),
    }
    let mut fabric = empty_lib();
    fabric.name = Some(s("net.fabricmc:intermediary:1.21"));
    match library_role(&fabric, Platform::Linux) {
        LibraryRole::Maven(p) => assert_eq!(p, "net/fabricmc/intermediary/1.21/intermediary-1.21.jar"),
        _ => panic!("expected a Maven path"),
    }
    assert!(matches!(library_role(&empty_lib(), Platform::Linux), LibraryRole::Unresolved));
}

#[test]
fn launch_plans() {
    let mut d = doc();
    assert_eq!(plan_launch("1.21", &d, None, Platform::Linux).err(), Some(s("mainClass introuvable")));
    d.main_class = Some(s("net.minecraft.client.main.Main"));
    assert_eq!(plan_launch("1.21", &d, None, Platform::Linux).err(), Some(s("libraries introuvable")));
    d.libraries = Some(vec![native_lib(), empty_lib()]);
    let plan = plan_launch("1.21", &d, None, Platform::Linux).unwrap();
    assert_eq!(plan.asset_index_id, "17");
    assert_eq!(plan.client_jar_version, "1.21");
    assert_eq!(plan.libraries.len(), 2);

    let mut fabric = doc();
    fabric.main_class = Some(s("net.fabricmc.loader.impl.launch.knot.KnotClient"));
    fabric.inherits_from = Some(s("1.21"));
    fabric.asset_index_id = Some(s("ignored"));
    let mut lib = empty_lib();
    lib.name = Some(s("net.fabricmc:fabric-loader:0.15.11"));
    fabric.libraries = Some(vec![lib]);
    let mut parent = doc();
    parent.asset_index_id = Some(s("17"));
    parent.libraries = Some(vec![native_lib()]);
    let plan = plan_launch("fabric-loader-0.15.11-1.21", &fabric, Some(&parent), Platform::Linux).unwrap();
    assert_eq!(plan.main_class, "net.fabricmc.loader.impl.launch.knot.KnotClient");
    assert_eq!(plan.asset_index_id, "17");
    assert_eq!(plan.client_jar_version, "1.21");
    assert_eq!(plan.libraries.len(), 2);
    assert!(matches!(plan.libraries[0], LibraryRole::Maven(_)));
    assert!(matches!(plan.libraries[1], LibraryRole::Native(Some(_))));
}

#[test]
fn classpath_and_natives() {
    let roles = vec![
        LibraryRole::Artifact(s("a.jar")),
        LibraryRole::Native(Some(s("n.jar"))),
        LibraryRole::Maven(s("m.jar")),
        LibraryRole::Artifact(s("missing.jar")),
        LibraryRole::Excluded,
        LibraryRole::Unresolved,
    ];
    let present = vec![true, true, true, false, true, true];
    assert_eq!(classpath_libraries(&roles, &present), vec![s("a.jar"), s("m.jar")]);
    assert_eq!(native_jars(&roles, &present), vec![s("n.jar")]);
    let entries = vec![s("/g/client.jar"), s("/g/a.jar"), s("/g/m.jar")];
    assert_eq!(classpath_string(&entries, Platform::Linux), "/g/client.jar:/g/a.jar:/g/m.jar");
    assert_eq!(classpath_string(&entries, Platform::Windows), "/g/client.jar;/g/a.jar;/g/m.jar");
    assert_eq!(classpath_string(&vec![], Platform::Linux), "");
}

#[test]
fn java_command_line() {
    let opts = LaunchOptions { version: s("1.21"), access_token: s("tok"), uuid: s("id"), name: s("Steve") };
    let args = java_arguments(Platform::MacOs, &opts, "Main", "a:b", "/g/natives", "/g", "/g/assets", "17");
    assert_eq!(
        args,
        vec![
            "-Xmx2G", "-Djava.library.path=/g/natives", "-XstartOnFirstThread", "-cp", "a:b", "Main",
            "--username", "Steve", "--uuid", "id", "--accessToken", "tok", "--version", "1.21",
            "--gameDir", "/g", "--assetsDir", "/g/assets", "--assetIndex", "17", "--userType", "msa",
        ]
    );
    let args = java_arguments(Platform::Linux, &opts, "Main", "a:b", "/g/natives", "/g", "/g/assets", "17");
    assert_eq!(args.len(), 21);
    assert_eq!(args[2], "-cp");
}

#[test]
fn fabric_url_has_one_slash_before_path() {
    let mut lib = empty_lib();
    lib.name = Some(s("a.b:c:1"));
    lib.url = Some(s("https://repo.example.org/maven///"));
    let d = fabric_library_download(&lib).unwrap();
    assert_eq!(d.download_url, "https://repo.example.org/maven/a/b/c/1/c-1.jar");
    assert!(d.lib_path.ends_with(&d.jar_name));
}

#[test]
fn fabric_install_path_is_launch_path() {
    for name in ["net.fabricmc:sponge-mixin:0.13.3+mixin.0.8.5", "org.ow2.asm:asm-tree:9.6", "x:y:z:w"] {
        let mut lib = empty_lib();
        lib.name = Some(s(name));
        let installed = fabric_library_download(&lib).unwrap().lib_path;
        match library_role(&lib, Platform::Linux) {
            LibraryRole::Maven(p) => assert_eq!(p, installed),
            _ => panic!("expected a Maven path"),
        }
    }
}

#[test]
fn progress_stays_in_bounds() {
    let total = 7;
    let mut last = 0;
    for i in 0..total {
        let p = library_progress(i, total).percent;
        assert!(10 <= p && p < 30 && p >= last);
        last = p;
    }
    let total = 130;
    let mut last = 0;
    for count in 0..=total {
        if let Some(e) = asset_progress(count, total) {
            assert!(30 <= e.percent && e.percent <= 100 && e.percent >= last);
            assert_eq!(e.percent == 100, count == total);
            last = e.percent;
        }
    }
    assert!(asset_progress(total, total).is_some());
}

#[test]
fn classpath_separators_between_entries() {
    let entries = vec![s("a.jar"), s("b.jar"), s("c.jar"), s("d.jar")];
    let cp = classpath_string(&entries, Platform::Windows);
    assert_eq!(cp.matches(';').count(), entries.len() - 1);
    assert_eq!(cp.split(';').collect::<Vec<_>>(), vec!["a.jar", "b.jar", "c.jar", "d.jar"]);
}
