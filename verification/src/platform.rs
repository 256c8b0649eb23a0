use vstd::prelude::*;

verus! {

/// The operating systems the launcher knows how to run on.
#[derive(Clone, Copy, Debug, PartialEq, Eq, Structural)]
pub enum Platform {
    Windows,
    MacOs,
    Linux,
}

/// The name Mojang and Fabric manifests give to an operating system.
pub open spec fn spec_mojang_os_name(platform: Platform) -> Seq<char> {
    match platform {
        Platform::Windows => "windows"@,
        Platform::MacOs => "osx"@,
        Platform::Linux => "linux"@,
    }
}

/// Returns the OS name used in the Mojang/Fabric JSON manifests:
/// "osx" for macOS, "windows" for Windows and "linux" elsewhere.
pub fn mojang_os_name(platform: Platform) -> (name: &'static str)
    ensures
        name@ == spec_mojang_os_name(platform),
{
    match platform {
        Platform::Windows => "windows",
        Platform::MacOs => "osx",
        Platform::Linux => "linux",
    }
}


/// The key under which Mojang manifests list a library's native jar for an OS.
pub open spec fn spec_natives_key(platform: Platform) -> Seq<char> {
    match platform {
        Platform::Windows => "natives-windows"@,
        Platform::MacOs => "natives-osx"@,
        Platform::Linux => "natives-linux"@,
    }
}

/// Returns the `downloads.classifiers` key of the native jar for `platform`.
pub fn natives_key(platform: Platform) -> (key: &'static str)
    ensures
        key@ == spec_natives_key(platform),
{
    match platform {
        Platform::Windows => "natives-windows",
        Platform::MacOs => "natives-osx",
        Platform::Linux => "natives-linux",
    }
}

/// The separator of Java classpath entries: `;` on Windows, `:` elsewhere.
pub open spec fn spec_classpath_separator(platform: Platform) -> Seq<char> {
    match platform {
        Platform::Windows => ";"@,
        _ => ":"@,
    }
}

/// Returns the separator of Java classpath entries on `platform`.
pub fn classpath_separator(platform: Platform) -> (sep: &'static str)
    ensures
        sep@ == spec_classpath_separator(platform),
{
    match platform {
        Platform::Windows => ";",
        _ => ":",
    }
}

/// The native-jar key is `natives-` followed by the Mojang name of the OS.
pub proof fn law_natives_key_follows_os_name(platform: Platform)
    ensures
        spec_natives_key(platform) == "natives-"@ + spec_mojang_os_name(platform),
{
    reveal_strlit("natives-");
    reveal_strlit("natives-windows");
    reveal_strlit("natives-osx");
    reveal_strlit("natives-linux");
    reveal_strlit("windows");
    reveal_strlit("osx");
    reveal_strlit("linux");
    assert(spec_natives_key(platform) =~= "natives-"@ + spec_mojang_os_name(platform));
}

/// The user directory under which the game directory lies.
#[derive(Clone, Copy, Debug, PartialEq, Eq, Structural)]
pub enum BaseDirectory {
    /// The user's home directory.
    Home,
    /// The user's application-data directory (`AppData\Roaming` on Windows).
    Data,
}

/// Where the launcher keeps its game directory on one platform.
pub struct GameDirLocation {
    /// The directory the path starts from.
    pub base: BaseDirectory,
    /// The path components appended to the base directory, in order.
    pub components: Vec<String>,
    /// The error reported when the base directory cannot be determined.
    pub missing_base_error: String,
}

/// The base directory of the game directory on each platform.
pub open spec fn spec_game_dir_base(platform: Platform) -> BaseDirectory {
    match platform {
        Platform::Windows => BaseDirectory::Data,
        _ => BaseDirectory::Home,
    }
}

/// The components appended to the base directory on each platform:
/// `Library/Application Support/sodium` on macOS, `.sodium` elsewhere.
pub open spec fn spec_game_dir_components(platform: Platform) -> Seq<Seq<char>> {
    match platform {
        Platform::MacOs => seq!["Library"@, "Application Support"@, "sodium"@],
        _ => seq![".sodium"@],
    }
}

/// The error reported when the base directory is missing.
pub open spec fn spec_game_dir_error(platform: Platform) -> Seq<char> {
    match platform {
        Platform::Windows => "AppData\\Roaming introuvable"@,
        _ => "Home introuvable"@,
    }
}

/// Describes where the game directory lies on `platform`.
pub fn game_dir_location(platform: Platform) -> (loc: GameDirLocation)
    ensures
        loc.base == spec_game_dir_base(platform),
        crate::text::string_views(loc.components@) == spec_game_dir_components(platform),
        loc.missing_base_error@ == spec_game_dir_error(platform),
{
    let loc = match platform {
        Platform::MacOs => GameDirLocation {
            base: BaseDirectory::Home,
            components: vec![
                String::from_str("Library"),
                String::from_str("Application Support"),
                String::from_str("sodium"),
            ],
            missing_base_error: String::from_str("Home introuvable"),
        },
        Platform::Windows => GameDirLocation {
            base: BaseDirectory::Data,
            components: vec![String::from_str(".sodium")],
            missing_base_error: String::from_str("AppData\\Roaming introuvable"),
        },
        Platform::Linux => GameDirLocation {
            base: BaseDirectory::Home,
            components: vec![String::from_str(".sodium")],
            missing_base_error: String::from_str("Home introuvable"),
        },
    };
    assert(crate::text::string_views(loc.components@) =~= spec_game_dir_components(platform));
    loc
}

/// The Java executable below `JAVA_HOME`.
pub open spec fn spec_java_home_candidate(platform: Platform, java_home: Seq<char>) -> Seq<char> {
    match platform {
        Platform::Windows => java_home + "\\bin\\javaw.exe"@,
        _ => java_home + "/bin/java"@,
    }
}

/// The Java executable shipped with the launcher, relative to the working directory.
pub open spec fn spec_bundled_java(platform: Platform) -> Seq<char> {
    match platform {
        Platform::Windows => "runtime\\java\\bin\\javaw.exe"@,
        _ => "runtime/java/bin/java"@,
    }
}

/// The Java executable looked up on the system `PATH`.
pub open spec fn spec_system_java(platform: Platform) -> Seq<char> {
    match platform {
        Platform::Windows => "javaw.exe"@,
        _ => "java"@,
    }
}

/// The Java executable chosen: the one below `JAVA_HOME` if set and present, else
/// the bundled one if present, else the one on the `PATH`.
pub open spec fn spec_find_java_binary(
    platform: Platform,
    java_home: Option<Seq<char>>,
    home_candidate_exists: bool,
    bundled_exists: bool,
) -> Seq<char> {
    if java_home is Some && home_candidate_exists {
        spec_java_home_candidate(platform, java_home.unwrap())
    } else if bundled_exists {
        spec_bundled_java(platform)
    } else {
        spec_system_java(platform)
    }
}

/// Returns the path of the Java executable inside `java_home`.
pub fn java_home_candidate(platform: Platform, java_home: &str) -> (bin: String)
    ensures
        bin@ == spec_java_home_candidate(platform, java_home@),
{
    let mut bin = String::from_str(java_home);
    match platform {
        Platform::Windows => bin.append("\\bin\\javaw.exe"),
        _ => bin.append("/bin/java"),
    }
    bin
}

/// Returns the path of the bundled Java executable.
pub fn bundled_java(platform: Platform) -> (bin: &'static str)
    ensures
        bin@ == spec_bundled_java(platform),
{
    match platform {
        Platform::Windows => "runtime\\java\\bin\\javaw.exe",
        _ => "runtime/java/bin/java",
    }
}

/// Chooses the Java executable, given `JAVA_HOME` (if set) and whether the candidate
/// below it (see `java_home_candidate`) and the bundled executable exist.
pub fn find_java_binary(
    platform: Platform,
    java_home: Option<&str>,
    home_candidate_exists: bool,
    bundled_exists: bool,
) -> (bin: String)
    ensures
        bin@ == spec_find_java_binary(
            platform,
            match java_home { Some(h) => Some(h@), None => None },
            home_candidate_exists,
            bundled_exists,
        ),
{
    if let Some(home) = java_home {
        if home_candidate_exists {
            return java_home_candidate(platform, home);
        }
    }
    if bundled_exists {
        return String::from_str(bundled_java(platform));
    }
    match platform {
        Platform::Windows => String::from_str("javaw.exe"),
        _ => String::from_str("java"),
    }
}


/// The Java executable is looked for in order: below `JAVA_HOME` when it is set and
/// the executable is there, else the bundled one when present, else `java`
/// (`javaw.exe` on Windows) on the `PATH`; the bundled and `PATH` choices do not
/// depend on `JAVA_HOME`.
pub proof fn law_java_binary_preference(
    platform: Platform,
    java_home: Option<Seq<char>>,
    home_candidate_exists: bool,
    bundled_exists: bool,
)
    ensures
        java_home is Some && home_candidate_exists ==> spec_find_java_binary(
            platform,
            java_home,
            home_candidate_exists,
            bundled_exists,
        ) == java_home.unwrap() + (if platform == Platform::Windows {
            "\\bin\\javaw.exe"@
        } else {
            "/bin/java"@
        }),
        !(java_home is Some && home_candidate_exists) && bundled_exists ==> spec_find_java_binary(
            platform,
            java_home,
            home_candidate_exists,
            bundled_exists,
        ) == (if platform == Platform::Windows {
            "runtime\\java\\bin\\javaw.exe"@
        } else {
            "runtime/java/bin/java"@
        }),
        !(java_home is Some && home_candidate_exists) && !bundled_exists ==> spec_find_java_binary(
            platform,
            java_home,
            home_candidate_exists,
            bundled_exists,
        ) == (if platform == Platform::Windows {
            "javaw.exe"@
        } else {
            "java"@
        }),
{
}

} // verus!
