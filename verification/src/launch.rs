use vstd::prelude::*;
use crate::maven::{maven_artifact, spec_fabric_library_download, spec_maven_artifact};
use crate::model::{LaunchOptions, LibraryEntry, NativeClassifier, VersionDocument};
use crate::platform::{
    Platform, classpath_separator, natives_key, spec_classpath_separator, spec_natives_key,
};
use crate::rules::{library_is_allowed, spec_library_is_allowed};
use crate::text::{join_strings, seq_join, string_views};

verus! {

/// What the launcher does with one library when starting the game.
pub enum LibraryRole {
    /// Its rules refuse it on this platform.
    Excluded,
    /// A native library: the non-empty path of the platform's native jar, if the
    /// manifest gives one. Native jars are extracted, never put on the classpath.
    Native(Option<String>),
    /// A library with a `downloads.artifact.path`: that path.
    Artifact(String),
    /// A library known by its Maven name only: its Maven path.
    Maven(String),
    /// A library that gives neither.
    Unresolved,
}

/// The mathematical counterpart of `LibraryRole`.
pub enum RoleView {
    Excluded,
    Native(Option<Seq<char>>),
    Artifact(Seq<char>),
    Maven(Seq<char>),
    Unresolved,
}

impl View for LibraryRole {
    type V = RoleView;

    open spec fn view(&self) -> RoleView {
        match self {
            LibraryRole::Excluded => RoleView::Excluded,
            LibraryRole::Native(p) => RoleView::Native(
                match p {
                    Some(s) => Some(s@),
                    None => None,
                },
            ),
            LibraryRole::Artifact(p) => RoleView::Artifact(p@),
            LibraryRole::Maven(p) => RoleView::Maven(p@),
            LibraryRole::Unresolved => RoleView::Unresolved,
        }
    }
}

/// The first classifier whose key is `key`.
pub open spec fn find_classifier(cls: Seq<NativeClassifier>, key: Seq<char>) -> Option<NativeClassifier>
    decreases cls.len(),
{
    if cls.len() == 0 {
        None
    } else if cls[0].key@ == key {
        Some(cls[0])
    } else {
        find_classifier(cls.drop_first(), key)
    }
}

/// The path of a library's native jar for `platform`, where it is given and not empty.
pub open spec fn spec_native_path(lib: LibraryEntry, platform: Platform) -> Option<Seq<char>> {
    match find_classifier(lib.classifiers@, spec_natives_key(platform)) {
        Some(c) => match c.path {
            Some(p) => if p@.len() > 0 { Some(p@) } else { None },
            None => None,
        },
        None => None,
    }
}

/// The role of a library at launch: refused by its rules, else native if it has
/// `natives`, else its artifact path, else its Maven path, else unresolved.
pub open spec fn spec_library_role(lib: LibraryEntry, platform: Platform) -> RoleView {
    if !spec_library_is_allowed(lib, platform) {
        RoleView::Excluded
    } else if lib.has_natives {
        RoleView::Native(spec_native_path(lib, platform))
    } else if lib.artifact is Some && lib.artifact.unwrap().path is Some {
        RoleView::Artifact(lib.artifact.unwrap().path.unwrap()@)
    } else {
        match lib.name {
            Some(n) => match spec_maven_artifact(n@) {
                Some((_jar, path)) => RoleView::Maven(path),
                None => RoleView::Unresolved,
            },
            None => RoleView::Unresolved,
        }
    }
}

/// The native jar path of the classifier named `key`, if present and not empty.
fn native_path(cls: &Vec<NativeClassifier>, key: &String) -> (r: Option<String>)
    ensures
        match r {
            Some(p) => find_classifier(cls@, key@) matches Some(c) && c.path matches Some(q)
                && q@ == p@ && p@.len() > 0,
            None => !(find_classifier(cls@, key@) matches Some(c) && c.path matches Some(q)
                && q@.len() > 0),
        },
{
    let n = cls.len();
    assert(cls@.skip(0) =~= cls@);
    for i in 0..n
        invariant
            n == cls@.len(),
            find_classifier(cls@, key@) == find_classifier(cls@.skip(i as int), key@),
    {
        assert(cls@.skip(i as int).drop_first() =~= cls@.skip(i as int + 1));
        assert(cls@.skip(i as int)[0] == cls@[i as int]);
        if cls[i].key == *key {
            return match &cls[i].path {
                Some(p) => if p.as_str().is_empty() {
                    None
                } else {
                    Some(p.clone())
                },
                None => None,
            };
        }
    }
    assert(cls@.skip(n as int) =~= Seq::<NativeClassifier>::empty());
    None
}

/// Decides what the launcher does with a library on `platform`.
pub fn library_role(lib: &LibraryEntry, platform: Platform) -> (r: LibraryRole)
    ensures
        r@ == spec_library_role(*lib, platform),
{
    if !library_is_allowed(lib, platform) {
        return LibraryRole::Excluded;
    }
    if lib.has_natives {
        let key = String::from_str(natives_key(platform));
        return LibraryRole::Native(native_path(&lib.classifiers, &key));
    }
    if let Some(a) = &lib.artifact {
        if let Some(p) = &a.path {
            return LibraryRole::Artifact(p.clone());
        }
    }
    if let Some(n) = &lib.name {
        if let Some(m) = maven_artifact(n.as_str()) {
            return LibraryRole::Maven(m.lib_path);
        }
    }
    LibraryRole::Unresolved
}

/// The asset index used when no manifest names one.
pub open spec fn default_asset_index() -> Seq<char> {
    "17"@
}

/// The asset index id at launch: that of the parent manifest when the version
/// inherits from one, else its own; `17` when the manifest names none.
pub open spec fn spec_launch_asset_index(doc: VersionDocument, parent: Option<VersionDocument>) -> Seq<char> {
    let source = if doc.inherits_from is Some {
        parent.unwrap()
    } else {
        doc
    };
    match source.asset_index_id {
        Some(id) => id@,
        None => default_asset_index(),
    }
}

/// The libraries considered at launch: the version's own, then the parent's.
pub open spec fn spec_launch_libraries(doc: VersionDocument, parent: Option<VersionDocument>) -> Seq<LibraryEntry> {
    let own = doc.libraries.unwrap()@;
    match parent {
        Some(p) => match p.libraries {
            Some(pl) => own + pl@,
            None => own,
        },
        None => own,
    }
}

/// Everything the launcher needs from the manifests to start a version.
pub struct LaunchPlan {
    /// The class whose `main` starts the game.
    pub main_class: String,
    /// The asset index passed to the game.
    pub asset_index_id: String,
    /// The version whose client jar heads the classpath (the parent when inheriting).
    pub client_jar_version: String,
    /// The role of each library, own libraries first, then the parent's.
    pub libraries: Vec<LibraryRole>,
}

/// The error when a manifest names no main class.
pub open spec fn missing_main_class_error() -> Seq<char> {
    "mainClass introuvable"@
}

/// The error when a manifest has no list of libraries.
pub open spec fn missing_libraries_error() -> Seq<char> {
    "libraries introuvable"@
}

/// Reads the main class of a version manifest.
pub fn main_class(doc: &VersionDocument) -> (r: Result<String, String>)
    ensures
        crate::text::result_view(r) == match doc.main_class {
            Some(m) => Ok(m@),
            None => Err(missing_main_class_error()),
        },
{
    match &doc.main_class {
        Some(m) => Ok(m.clone()),
        None => Err(String::from_str("mainClass introuvable")),
    }
}

/// Appends the roles of `libs` to `roles`.
fn push_roles(roles: &mut Vec<LibraryRole>, libs: &Vec<LibraryEntry>, platform: Platform)
    ensures
        final(roles)@.len() == old(roles)@.len() + libs@.len(),
        forall|i: int| 0 <= i < old(roles)@.len() ==> final(roles)@[i] == old(roles)@[i],
        forall|i: int|
            0 <= i < libs@.len() ==> (#[trigger] final(roles)@[old(roles)@.len() + i])@
                == spec_library_role(libs@[i], platform),
{
    let ghost start = roles@;
    let n = libs.len();
    for i in 0..n
        invariant
            n == libs@.len(),
            roles@.len() == start.len() + i,
            forall|k: int| 0 <= k < start.len() ==> roles@[k] == start[k],
            forall|k: int|
                0 <= k < i ==> (#[trigger] roles@[start.len() + k])@ == spec_library_role(
                    libs@[k],
                    platform,
                ),
    {
        let role = library_role(&libs[i], platform);
        roles.push(role);
    }
}

/// Reads a version manifest (and, where it inherits, its parent's) into a launch
/// plan. Fails with `mainClass introuvable` when the manifest names no main class,
/// else with `libraries introuvable` when it has no list of libraries.
pub fn plan_launch(
    version: &str,
    doc: &VersionDocument,
    parent: Option<&VersionDocument>,
    platform: Platform,
) -> (r: Result<LaunchPlan, String>)
    requires
        parent is Some <==> doc.inherits_from is Some,
    ensures
        match r {
            Err(e) => {
                ||| doc.main_class is None && e@ == missing_main_class_error()
                ||| doc.main_class is Some && doc.libraries is None && e@
                    == missing_libraries_error()
            },
            Ok(plan) => {
                let par = match parent {
                    Some(p) => Some(*p),
                    None => None,
                };
                let libs = spec_launch_libraries(*doc, par);
                &&& doc.main_class is Some && doc.libraries is Some
                &&& plan.main_class@ == doc.main_class.unwrap()@
                &&& plan.asset_index_id@ == spec_launch_asset_index(*doc, par)
                &&& plan.client_jar_version@ == match doc.inherits_from {
                    Some(p) => p@,
                    None => version@,
                }
                &&& plan.libraries@.len() == libs.len()
                &&& forall|i: int|
                    0 <= i < libs.len() ==> (#[trigger] plan.libraries@[i])@ == spec_library_role(
                        libs[i],
                        platform,
                    )
            },
        },
{
    let main_class = match main_class(doc) {
        Ok(m) => m,
        Err(e) => return Err(e),
    };
    let source = match parent {
        Some(p) => p,
        None => doc,
    };
    let asset_index_id = match &source.asset_index_id {
        Some(id) => id.clone(),
        None => String::from_str("17"),
    };
    let own = match &doc.libraries {
        Some(l) => l,
        None => return Err(String::from_str("libraries introuvable")),
    };
    let mut roles: Vec<LibraryRole> = Vec::new();
    push_roles(&mut roles, own, platform);
    let ghost after_own = roles@;
    if let Some(p) = parent {
        if let Some(pl) = &p.libraries {
            push_roles(&mut roles, pl, platform);
            proof {
                let par = Some(*p);
                let libs = spec_launch_libraries(*doc, par);
                assert forall|i: int| 0 <= i < libs.len() implies (#[trigger] roles@[i])@
                    == spec_library_role(libs[i], platform) by {
                    if i < own@.len() {
                        assert(roles@[i] == after_own[i]);
                        assert(after_own[0 + i]@ == spec_library_role(own@[i], platform));
                    } else {
                        let k = i - own@.len();
                        assert(roles@[after_own.len() + k]@ == spec_library_role(pl@[k], platform));
                    }
                }
            }
        } else {
            proof {
                assert forall|i: int| 0 <= i < own@.len() implies (#[trigger] roles@[i])@
                    == spec_library_role(own@[i], platform) by {
                    assert(roles@[0 + i]@ == spec_library_role(own@[i], platform));
                }
            }
        }
    } else {
        proof {
            assert forall|i: int| 0 <= i < own@.len() implies (#[trigger] roles@[i])@
                == spec_library_role(own@[i], platform) by {
                assert(roles@[0 + i]@ == spec_library_role(own@[i], platform));
            }
        }
    }
    let client_jar_version = match &doc.inherits_from {
        Some(p) => p.clone(),
        None => String::from_str(version),
    };
    Ok(LaunchPlan { main_class, asset_index_id, client_jar_version, libraries: roles })
}


/// The roles of a list of libraries, as mathematical values.
pub open spec fn role_views(roles: Seq<LibraryRole>) -> Seq<RoleView> {
    roles.map_values(|r: LibraryRole| r@)
}

/// The library paths put on the classpath, in order: those of artifact and Maven
/// libraries whose jar is present (`present[i]` for the `i`-th library).
pub open spec fn spec_classpath_libraries(roles: Seq<RoleView>, present: Seq<bool>) -> Seq<Seq<char>>
    decreases roles.len(),
{
    if roles.len() == 0 {
        seq![]
    } else {
        let rest = spec_classpath_libraries(roles.drop_last(), present.drop_last());
        match roles.last() {
            RoleView::Artifact(p) => if present.last() { rest.push(p) } else { rest },
            RoleView::Maven(p) => if present.last() { rest.push(p) } else { rest },
            _ => rest,
        }
    }
}

/// The native jars extracted, in order: those of native libraries whose jar path is
/// given and whose jar is present.
pub open spec fn spec_native_jars(roles: Seq<RoleView>, present: Seq<bool>) -> Seq<Seq<char>>
    decreases roles.len(),
{
    if roles.len() == 0 {
        seq![]
    } else {
        let rest = spec_native_jars(roles.drop_last(), present.drop_last());
        match roles.last() {
            RoleView::Native(Some(p)) => if present.last() { rest.push(p) } else { rest },
            _ => rest,
        }
    }
}

/// Selects the library paths that go on the classpath, given for each library
/// whether its jar is present in the library directory.
pub fn classpath_libraries(roles: &Vec<LibraryRole>, present: &Vec<bool>) -> (r: Vec<String>)
    requires
        present@.len() == roles@.len(),
    ensures
        string_views(r@) == spec_classpath_libraries(role_views(roles@), present@),
{
    let ghost views = role_views(roles@);
    let mut r: Vec<String> = Vec::new();
    let n = roles.len();
    for i in 0..n
        invariant
            n == roles@.len(),
            present@.len() == n,
            views == role_views(roles@),
            string_views(r@) == spec_classpath_libraries(views.take(i as int), present@.take(i as int)),
    {
        assert(views.take(i + 1).drop_last() =~= views.take(i as int));
        assert(present@.take(i + 1).drop_last() =~= present@.take(i as int));
        assert(views.take(i + 1).last() == roles@[i as int]@);
        let ghost before = r@;
        match &roles[i] {
            LibraryRole::Artifact(p) => {
                if present[i] {
                    r.push(p.clone());
                    assert(string_views(r@) =~= string_views(before).push(p@));
                }
            },
            LibraryRole::Maven(p) => {
                if present[i] {
                    r.push(p.clone());
                    assert(string_views(r@) =~= string_views(before).push(p@));
                }
            },
            _ => {},
        }
    }
    assert(views.take(n as int) =~= views);
    assert(present@.take(n as int) =~= present@);
    r
}

/// Selects the native jars to extract, given for each library whether its
/// native jar is present in the library directory.
pub fn native_jars(roles: &Vec<LibraryRole>, present: &Vec<bool>) -> (r: Vec<String>)
    requires
        present@.len() == roles@.len(),
    ensures
        string_views(r@) == spec_native_jars(role_views(roles@), present@),
{
    let ghost views = role_views(roles@);
    let mut r: Vec<String> = Vec::new();
    let n = roles.len();
    for i in 0..n
        invariant
            n == roles@.len(),
            present@.len() == n,
            views == role_views(roles@),
            string_views(r@) == spec_native_jars(views.take(i as int), present@.take(i as int)),
    {
        assert(views.take(i + 1).drop_last() =~= views.take(i as int));
        assert(present@.take(i + 1).drop_last() =~= present@.take(i as int));
        assert(views.take(i + 1).last() == roles@[i as int]@);
        let ghost before = r@;
        if let LibraryRole::Native(Some(p)) = &roles[i] {
            if present[i] {
                r.push(p.clone());
                assert(string_views(r@) =~= string_views(before).push(p@));
            }
        }
    }
    assert(views.take(n as int) =~= views);
    assert(present@.take(n as int) =~= present@);
    r
}

/// Joins classpath entries with the platform's separator.
pub fn classpath_string(entries: &Vec<String>, platform: Platform) -> (cp: String)
    ensures
        cp@ == seq_join(string_views(entries@), spec_classpath_separator(platform)),
{
    join_strings(entries, classpath_separator(platform))
}

/// The arguments given to the Java executable to start the game.
pub open spec fn spec_java_arguments(
    platform: Platform,
    version: Seq<char>,
    access_token: Seq<char>,
    uuid: Seq<char>,
    name: Seq<char>,
    main_class: Seq<char>,
    classpath: Seq<char>,
    natives_dir: Seq<char>,
    game_dir: Seq<char>,
    assets_dir: Seq<char>,
    asset_index_id: Seq<char>,
) -> Seq<Seq<char>> {
    let memory = seq!["-Xmx2G"@, "-Djava.library.path="@ + natives_dir];
    let first_thread = if platform == Platform::MacOs {
        seq!["-XstartOnFirstThread"@]
    } else {
        Seq::<Seq<char>>::empty()
    };
    memory + first_thread + seq![
        "-cp"@,
        classpath,
        main_class,
        "--username"@,
        name,
        "--uuid"@,
        uuid,
        "--accessToken"@,
        access_token,
        "--version"@,
        version,
        "--gameDir"@,
        game_dir,
        "--assetsDir"@,
        assets_dir,
        "--assetIndex"@,
        asset_index_id,
        "--userType"@,
        "msa"@,
    ]
}

fn push_str(args: &mut Vec<String>, s: &str)
    ensures
        string_views(final(args)@) == string_views(old(args)@).push(s@),
{
    args.push(String::from_str(s));
    assert(string_views(args@) =~= string_views(old(args)@).push(s@));
}

/// Builds the Java command line: 2 GiB heap, the natives directory as library
/// path, `-XstartOnFirstThread` on macOS only, the classpath, the main class, then
/// the player, session and directory arguments, ending with `--userType msa`.
pub fn java_arguments(
    platform: Platform,
    options: &LaunchOptions,
    main_class: &str,
    classpath: &str,
    natives_dir: &str,
    game_dir: &str,
    assets_dir: &str,
    asset_index_id: &str,
) -> (args: Vec<String>)
    ensures
        string_views(args@) == spec_java_arguments(
            platform,
            options.version@,
            options.access_token@,
            options.uuid@,
            options.name@,
            main_class@,
            classpath@,
            natives_dir@,
            game_dir@,
            assets_dir@,
            asset_index_id@,
        ),
{
    let mut args: Vec<String> = Vec::new();
    push_str(&mut args, "-Xmx2G");
    let mut library_path = String::from_str("-Djava.library.path=");
    library_path.append(natives_dir);
    push_str(&mut args, library_path.as_str());
    if platform == Platform::MacOs {
        push_str(&mut args, "-XstartOnFirstThread");
    }
    push_str(&mut args, "-cp");
    push_str(&mut args, classpath);
    push_str(&mut args, main_class);
    push_str(&mut args, "--username");
    push_str(&mut args, options.name.as_str());
    push_str(&mut args, "--uuid");
    push_str(&mut args, options.uuid.as_str());
    push_str(&mut args, "--accessToken");
    push_str(&mut args, options.access_token.as_str());
    push_str(&mut args, "--version");
    push_str(&mut args, options.version.as_str());
    push_str(&mut args, "--gameDir");
    push_str(&mut args, game_dir);
    push_str(&mut args, "--assetsDir");
    push_str(&mut args, assets_dir);
    push_str(&mut args, "--assetIndex");
    push_str(&mut args, asset_index_id);
    push_str(&mut args, "--userType");
    push_str(&mut args, "msa");
    assert(string_views(args@) =~= spec_java_arguments(
        platform,
        options.version@,
        options.access_token@,
        options.uuid@,
        options.name@,
        main_class@,
        classpath@,
        natives_dir@,
        game_dir@,
        assets_dir@,
        asset_index_id@,
    ));
    args
}

/// Every classpath library comes from a present artifact or Maven library; native
/// jars and excluded or unresolved libraries never reach the classpath.
pub proof fn law_classpath_holds_only_jar_libraries(roles: Seq<RoleView>, present: Seq<bool>)
    requires
        present.len() == roles.len(),
    ensures
        forall|k: int|
            0 <= k < spec_classpath_libraries(roles, present).len() ==> exists|i: int|
                0 <= i < roles.len() && present[i] && (roles[i] == RoleView::Artifact(
                    #[trigger] spec_classpath_libraries(roles, present)[k],
                ) || roles[i] == RoleView::Maven(spec_classpath_libraries(roles, present)[k])),
    decreases roles.len(),
{
    if roles.len() > 0 {
        let shorter = roles.drop_last();
        let shorter_present = present.drop_last();
        law_classpath_holds_only_jar_libraries(shorter, shorter_present);
        let cp = spec_classpath_libraries(roles, present);
        let rest = spec_classpath_libraries(shorter, shorter_present);
        assert forall|k: int| 0 <= k < cp.len() implies exists|i: int|
            0 <= i < roles.len() && present[i] && (roles[i] == RoleView::Artifact(#[trigger] cp[k])
                || roles[i] == RoleView::Maven(cp[k])) by {
            if k < rest.len() {
                assert(cp[k] == rest[k]);
                let i = choose|i: int|
                    0 <= i < shorter.len() && shorter_present[i] && (shorter[i]
                        == RoleView::Artifact(#[trigger] rest[k]) || shorter[i] == RoleView::Maven(
                        rest[k],
                    ));
                assert(roles[i] == shorter[i] && present[i] == shorter_present[i]);
            } else {
                let last = roles.len() - 1;
                assert(roles[last] == roles.last());
            }
        }
    }
}

/// The number of times `c` occurs in `s`.
pub open spec fn count_char(s: Seq<char>, c: char) -> nat
    decreases s.len(),
{
    if s.len() == 0 {
        0
    } else {
        (if s.last() == c { 1nat } else { 0nat }) + count_char(s.drop_last(), c)
    }
}

proof fn lemma_count_concat(a: Seq<char>, b: Seq<char>, c: char)
    ensures
        count_char(a + b, c) == count_char(a, c) + count_char(b, c),
    decreases b.len(),
{
    if b.len() == 0 {
        assert(a + b =~= a);
    } else {
        assert((a + b).drop_last() =~= a + b.drop_last());
        lemma_count_concat(a, b.drop_last(), c);
    }
}

/// Where no entry holds the separator, the classpath holds exactly one separator
/// between each two neighbouring entries, so entries never merge or split.
pub proof fn law_classpath_separator_count(entries: Seq<Seq<char>>, platform: Platform)
    requires
        entries.len() > 0,
        forall|i: int| 0 <= i < entries.len() ==> count_char(
            #[trigger] entries[i],
            spec_classpath_separator(platform)[0],
        ) == 0,
    ensures
        spec_classpath_separator(platform).len() == 1,
        count_char(seq_join(entries, spec_classpath_separator(platform)), spec_classpath_separator(platform)[0])
            == entries.len() - 1,
    decreases entries.len(),
{
    reveal_strlit(";");
    reveal_strlit(":");
    let sep = spec_classpath_separator(platform);
    let c = sep[0];
    if entries.len() > 1 {
        let shorter = entries.drop_last();
        assert forall|i: int| 0 <= i < shorter.len() implies count_char(#[trigger] shorter[i], c) == 0 by {
            assert(shorter[i] == entries[i]);
        }
        law_classpath_separator_count(shorter, platform);
        let joined = seq_join(shorter, sep);
        lemma_count_concat(joined + sep, entries.last(), c);
        lemma_count_concat(joined, sep, c);
        assert(count_char(sep, c) == 1) by {
            assert(sep.len() == 1);
            assert(sep.drop_last() =~= Seq::<char>::empty());
            assert(count_char(sep.drop_last(), c) == 0);
            assert(sep.last() == c);
        }
        assert(count_char(entries.last(), c) == 0) by {
            assert(entries.last() == entries[entries.len() - 1]);
        }
    }
}

/// A Fabric library that the launcher puts on the classpath by its Maven name is
/// looked for at the very path the Fabric installer downloads it to.
pub proof fn law_fabric_install_and_launch_agree(lib: LibraryEntry, platform: Platform, path: Seq<char>)
    requires
        spec_library_role(lib, platform) == RoleView::Maven(path),
    ensures
        spec_fabric_library_download(lib) matches Some((_jar, install_path, _url))
            && install_path == path,
{
}


/// The command line outside macOS: exactly 21 arguments, heap size, library path,
/// `-cp` and the classpath, the main class, then the player, session and directory
/// options in pairs, ending with `--userType msa`; no `-XstartOnFirstThread`.
pub open spec fn portable_java_arguments(
    version: Seq<char>,
    access_token: Seq<char>,
    uuid: Seq<char>,
    name: Seq<char>,
    main_class: Seq<char>,
    classpath: Seq<char>,
    natives_dir: Seq<char>,
    game_dir: Seq<char>,
    assets_dir: Seq<char>,
    asset_index_id: Seq<char>,
) -> Seq<Seq<char>> {
    seq![
        "-Xmx2G"@,
        "-Djava.library.path="@ + natives_dir,
        "-cp"@,
        classpath,
        main_class,
        "--username"@,
        name,
        "--uuid"@,
        uuid,
        "--accessToken"@,
        access_token,
        "--version"@,
        version,
        "--gameDir"@,
        game_dir,
        "--assetsDir"@,
        assets_dir,
        "--assetIndex"@,
        asset_index_id,
        "--userType"@,
        "msa"@,
    ]
}

/// `-XstartOnFirstThread` is passed on macOS only: elsewhere the command line is
/// the 21 arguments of `portable_java_arguments` (with `-cp` third and the flag at
/// no fixed position); on macOS the flag is inserted once, right after the library
/// path, and nothing else changes.
pub proof fn law_first_thread_flag_only_on_macos(
    platform: Platform,
    version: Seq<char>,
    access_token: Seq<char>,
    uuid: Seq<char>,
    name: Seq<char>,
    main_class: Seq<char>,
    classpath: Seq<char>,
    natives_dir: Seq<char>,
    game_dir: Seq<char>,
    assets_dir: Seq<char>,
    asset_index_id: Seq<char>,
)
    ensures
        ({
            let args = spec_java_arguments(
                platform,
                version,
                access_token,
                uuid,
                name,
                main_class,
                classpath,
                natives_dir,
                game_dir,
                assets_dir,
                asset_index_id,
            );
            let plain = portable_java_arguments(
                version,
                access_token,
                uuid,
                name,
                main_class,
                classpath,
                natives_dir,
                game_dir,
                assets_dir,
                asset_index_id,
            );
            &&& platform != Platform::MacOs ==> args == plain && args.len() == 21 && args[2]
                == "-cp"@
            &&& platform == Platform::MacOs ==> args.len() == 22 && args[2]
                == "-XstartOnFirstThread"@ && args.remove(2) == plain
        }),
{
    let args = spec_java_arguments(
        platform,
        version,
        access_token,
        uuid,
        name,
        main_class,
        classpath,
        natives_dir,
        game_dir,
        assets_dir,
        asset_index_id,
    );
    let plain = portable_java_arguments(
        version,
        access_token,
        uuid,
        name,
        main_class,
        classpath,
        natives_dir,
        game_dir,
        assets_dir,
        asset_index_id,
    );
    if platform == Platform::MacOs {
        assert(args.remove(2) =~= plain);
    } else {
        assert(args =~= plain);
    }
}

/// Selecting native jars over two lists laid end to end gives the selections of
/// the two lists laid end to end.
pub proof fn law_native_jars_concat(r1: Seq<RoleView>, p1: Seq<bool>, r2: Seq<RoleView>, p2: Seq<bool>)
    requires
        p1.len() == r1.len(),
        p2.len() == r2.len(),
    ensures
        spec_native_jars(r1 + r2, p1 + p2) == spec_native_jars(r1, p1) + spec_native_jars(r2, p2),
    decreases r2.len(),
{
    if r2.len() == 0 {
        assert(r1 + r2 =~= r1);
        assert(p1 + p2 =~= p1);
        assert(spec_native_jars(r2, p2) =~= Seq::<Seq<char>>::empty());
        assert(spec_native_jars(r1, p1) + Seq::<Seq<char>>::empty() =~= spec_native_jars(r1, p1));
    } else {
        law_native_jars_concat(r1, p1, r2.drop_last(), p2.drop_last());
        assert((r1 + r2).drop_last() =~= r1 + r2.drop_last());
        assert((p1 + p2).drop_last() =~= p1 + p2.drop_last());
        assert((r1 + r2).last() == r2.last());
        assert((p1 + p2).last() == p2.last());
        let a = spec_native_jars(r1, p1);
        let b = spec_native_jars(r2.drop_last(), p2.drop_last());
        match r2.last() {
            RoleView::Native(Some(p)) => {
                if p2.last() {
                    assert((a + b).push(p) =~= a + b.push(p));
                }
            },
            _ => {},
        }
    }
}

/// A single library yields its native jar exactly when it is a native library with
/// a jar path whose jar is present, and nothing otherwise.
pub proof fn law_native_jars_single(role: RoleView, here: bool)
    ensures
        spec_native_jars(seq![role], seq![here]) == match role {
            RoleView::Native(Some(p)) => if here {
                seq![p]
            } else {
                Seq::<Seq<char>>::empty()
            },
            _ => Seq::<Seq<char>>::empty(),
        },
{
    let r = seq![role];
    let h = seq![here];
    assert(r.last() == role);
    assert(h.last() == here);
    assert(r.drop_last() =~= Seq::<RoleView>::empty());
    assert(h.drop_last() =~= Seq::<bool>::empty());
    assert(spec_native_jars(r.drop_last(), h.drop_last()) == Seq::<Seq<char>>::empty());
    match role {
        RoleView::Native(Some(p)) => {
            assert(Seq::<Seq<char>>::empty().push(p) =~= seq![p]);
        },
        _ => {},
    }
}

/// Every present native jar is selected: for each index holding a native library
/// with a jar path whose jar is present, that path is in the selection.
pub proof fn law_native_jars_complete(roles: Seq<RoleView>, present: Seq<bool>, i: int)
    requires
        present.len() == roles.len(),
        0 <= i < roles.len(),
        present[i],
        roles[i] matches RoleView::Native(Some(_)),
    ensures
        spec_native_jars(roles, present).contains(roles[i]->Native_0.unwrap()),
{
    let p = roles[i]->Native_0.unwrap();
    let r1 = roles.take(i);
    let r2 = roles.skip(i);
    let q1 = present.take(i);
    let q2 = present.skip(i);
    assert(r1 + r2 =~= roles);
    assert(q1 + q2 =~= present);
    law_native_jars_concat(r1, q1, r2, q2);
    let r3 = r2.skip(1);
    let q3 = q2.skip(1);
    assert(seq![roles[i]] + r3 =~= r2);
    assert(seq![present[i]] + q3 =~= q2);
    law_native_jars_concat(seq![roles[i]], seq![present[i]], r3, q3);
    law_native_jars_single(roles[i], present[i]);
    let whole = spec_native_jars(r1, q1) + (seq![p] + spec_native_jars(r3, q3));
    assert(whole[spec_native_jars(r1, q1).len() as int] == p);
}

/// The asset index passed to the game: a version that inherits from nothing uses
/// the id its own manifest names, one that inherits uses the id of the parent's
/// manifest, and `17` only where the manifest read names none.
pub proof fn law_launch_asset_index(doc: VersionDocument, parent: Option<VersionDocument>)
    requires
        parent is Some <==> doc.inherits_from is Some,
    ensures
        doc.inherits_from is None && doc.asset_index_id is Some ==> spec_launch_asset_index(
            doc,
            parent,
        ) == doc.asset_index_id.unwrap()@,
        doc.inherits_from is Some && parent.unwrap().asset_index_id is Some
            ==> spec_launch_asset_index(doc, parent) == parent.unwrap().asset_index_id.unwrap()@,
        doc.inherits_from is None && doc.asset_index_id is None ==> spec_launch_asset_index(
            doc,
            parent,
        ) == "17"@,
        doc.inherits_from is Some && parent.unwrap().asset_index_id is None
            ==> spec_launch_asset_index(doc, parent) == "17"@,
{
}


/// Selecting classpath libraries over two lists laid end to end gives the
/// selections of the two lists laid end to end.
pub proof fn law_classpath_libraries_concat(r1: Seq<RoleView>, p1: Seq<bool>, r2: Seq<RoleView>, p2: Seq<bool>)
    requires
        p1.len() == r1.len(),
        p2.len() == r2.len(),
    ensures
        spec_classpath_libraries(r1 + r2, p1 + p2) == spec_classpath_libraries(r1, p1)
            + spec_classpath_libraries(r2, p2),
    decreases r2.len(),
{
    if r2.len() == 0 {
        assert(r1 + r2 =~= r1);
        assert(p1 + p2 =~= p1);
        assert(spec_classpath_libraries(r2, p2) =~= Seq::<Seq<char>>::empty());
        assert(spec_classpath_libraries(r1, p1) + Seq::<Seq<char>>::empty() =~= spec_classpath_libraries(r1, p1));
    } else {
        law_classpath_libraries_concat(r1, p1, r2.drop_last(), p2.drop_last());
        assert((r1 + r2).drop_last() =~= r1 + r2.drop_last());
        assert((p1 + p2).drop_last() =~= p1 + p2.drop_last());
        assert((r1 + r2).last() == r2.last());
        assert((p1 + p2).last() == p2.last());
        let a = spec_classpath_libraries(r1, p1);
        let b = spec_classpath_libraries(r2.drop_last(), p2.drop_last());
        match r2.last() {
            RoleView::Artifact(p) => {
                if p2.last() {
                    assert((a + b).push(p) =~= a + b.push(p));
                }
            },
            RoleView::Maven(p) => {
                if p2.last() {
                    assert((a + b).push(p) =~= a + b.push(p));
                }
            },
            _ => {},
        }
    }
}

/// A single library contributes its path to the classpath exactly when it is an
/// artifact or Maven library whose jar is present, and nothing otherwise.
pub proof fn law_classpath_libraries_single(role: RoleView, here: bool)
    ensures
        spec_classpath_libraries(seq![role], seq![here]) == match role {
            RoleView::Artifact(p) => if here {
                seq![p]
            } else {
                Seq::<Seq<char>>::empty()
            },
            RoleView::Maven(p) => if here {
                seq![p]
            } else {
                Seq::<Seq<char>>::empty()
            },
            _ => Seq::<Seq<char>>::empty(),
        },
{
    let r = seq![role];
    let h = seq![here];
    assert(r.last() == role);
    assert(h.last() == here);
    assert(r.drop_last() =~= Seq::<RoleView>::empty());
    assert(h.drop_last() =~= Seq::<bool>::empty());
    assert(spec_classpath_libraries(r.drop_last(), h.drop_last()) == Seq::<Seq<char>>::empty());
    match role {
        RoleView::Artifact(p) => {
            assert(Seq::<Seq<char>>::empty().push(p) =~= seq![p]);
        },
        RoleView::Maven(p) => {
            assert(Seq::<Seq<char>>::empty().push(p) =~= seq![p]);
        },
        _ => {},
    }
}

/// The role of a library follows the launcher's order of preference: refused by
/// its rules, else native when it has `natives`, else its artifact path, else the
/// Maven path of its name.
pub proof fn law_library_role_preference(lib: LibraryEntry, platform: Platform)
    ensures
        !spec_library_is_allowed(lib, platform) ==> spec_library_role(lib, platform)
            == RoleView::Excluded,
        spec_library_is_allowed(lib, platform) && lib.has_natives ==> spec_library_role(
            lib,
            platform,
        ) is Native,
        spec_library_is_allowed(lib, platform) && !lib.has_natives && lib.artifact is Some
            && lib.artifact.unwrap().path is Some ==> spec_library_role(lib, platform)
            == RoleView::Artifact(lib.artifact.unwrap().path.unwrap()@),
        spec_library_is_allowed(lib, platform) && !lib.has_natives && !(lib.artifact is Some
            && lib.artifact.unwrap().path is Some) && lib.name is Some && spec_maven_artifact(
            lib.name.unwrap()@,
        ) is Some ==> spec_library_role(lib, platform) == RoleView::Maven(
            spec_maven_artifact(lib.name.unwrap()@).unwrap().1,
        ),
{
}

} // verus!
