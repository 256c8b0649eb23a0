use vstd::prelude::*;
use crate::model::LibraryEntry;
use crate::text::{chars_of, push_char, string_of_range};

verus! {

/// The index of the first `c` in `s` at or after `from`, if any.
pub open spec fn find_char_from(s: Seq<char>, c: char, from: int) -> Option<int>
    decreases s.len() - from,
{
    if from >= s.len() {
        None
    } else if s[from] == c {
        Some(from)
    } else {
        find_char_from(s, c, from + 1)
    }
}

/// The three parts of a Maven coordinate `group:artifact:version`, split at the
/// first two colons (the version keeps any further colon). `None` where `name`
/// has fewer than two colons.
pub open spec fn spec_maven_coordinates(name: Seq<char>) -> Option<(Seq<char>, Seq<char>, Seq<char>)> {
    match find_char_from(name, ':', 0) {
        None => None,
        Some(i) => match find_char_from(name, ':', i + 1) {
            None => None,
            Some(j) => Some(
                (name.subrange(0, i), name.subrange(i + 1, j), name.subrange(j + 1, name.len() as int)),
            ),
        },
    }
}

/// `s` with every `.` turned into `/`.
pub open spec fn dots_to_slashes(s: Seq<char>) -> Seq<char> {
    s.map_values(|c: char| if c == '.' { '/' } else { c })
}

/// The file name of a Maven jar: `artifact-version.jar`.
pub open spec fn spec_maven_jar_name(artifact: Seq<char>, version: Seq<char>) -> Seq<char> {
    artifact + "-"@ + version + ".jar"@
}

/// The repository path of a Maven jar: `group/with/slashes/artifact/version/artifact-version.jar`.
pub open spec fn spec_maven_path(group: Seq<char>, artifact: Seq<char>, version: Seq<char>) -> Seq<char> {
    dots_to_slashes(group) + "/"@ + artifact + "/"@ + version + "/"@ + spec_maven_jar_name(
        artifact,
        version,
    )
}

/// The jar name and repository path of a Maven coordinate, if it is one.
pub open spec fn spec_maven_artifact(name: Seq<char>) -> Option<(Seq<char>, Seq<char>)> {
    match spec_maven_coordinates(name) {
        None => None,
        Some((g, a, v)) => Some((spec_maven_jar_name(a, v), spec_maven_path(g, a, v))),
    }
}

/// `s` without its trailing run of `c`.
pub open spec fn trim_end_char(s: Seq<char>, c: char) -> Seq<char>
    decreases s.len(),
{
    if s.len() > 0 && s.last() == c {
        trim_end_char(s.drop_last(), c)
    } else {
        s
    }
}

/// The Maven repository used for a Fabric library that names none.
pub open spec fn default_fabric_repository() -> Seq<char> {
    "https://maven.fabricmc.net/"@
}

/// Where a Fabric library is fetched from: the repository without trailing slashes,
/// a slash, and the library's Maven path.
pub open spec fn spec_download_url(repository: Seq<char>, lib_path: Seq<char>) -> Seq<char> {
    trim_end_char(repository, '/') + "/"@ + lib_path
}

/// What a Fabric library needs downloading: jar name, Maven path and URL; `None`
/// where its `name` (empty when missing) is no Maven coordinate.
pub open spec fn spec_fabric_library_download(lib: LibraryEntry) -> Option<(Seq<char>, Seq<char>, Seq<char>)> {
    let name = match lib.name {
        Some(n) => n@,
        None => Seq::<char>::empty(),
    };
    let repository = match lib.url {
        Some(u) => u@,
        None => default_fabric_repository(),
    };
    match spec_maven_artifact(name) {
        None => None,
        Some((jar, path)) => Some((jar, path, spec_download_url(repository, path))),
    }
}

/// The jar file name and repository path of a Maven library.
pub struct MavenArtifact {
    pub jar_name: String,
    pub lib_path: String,
}

/// A Fabric library to download: its jar name, repository path and URL.
pub struct FabricDownload {
    pub jar_name: String,
    pub lib_path: String,
    pub download_url: String,
}

/// The index of the first `c` in `v` at or after `from`.
pub fn find_char(v: &Vec<char>, c: char, from: usize) -> (r: Option<usize>)
    requires
        from <= v@.len(),
    ensures
        match r {
            Some(i) => find_char_from(v@, c, from as int) == Some(i as int),
            None => find_char_from(v@, c, from as int) is None,
        },
{
    let mut i = from;
    while i < v.len()
        invariant
            from <= i <= v@.len(),
            find_char_from(v@, c, from as int) == find_char_from(v@, c, i as int),
        decreases v@.len() - i,
    {
        if v[i] == c {
            return Some(i);
        }
        i = i + 1;
    }
    None
}

/// Splits a Maven coordinate `group:artifact:version` and returns the jar name
/// `artifact-version.jar` and the path `group/path/artifact/version/jar`, where the
/// group's dots become slashes. `None` where `name` has fewer than two colons.
pub fn maven_artifact(name: &str) -> (r: Option<MavenArtifact>)
    ensures
        match r {
            Some(m) => spec_maven_artifact(name@) == Some((m.jar_name@, m.lib_path@)),
            None => spec_maven_artifact(name@) is None,
        },
{
    let chars = chars_of(name);
    let i = match find_char(&chars, ':', 0) {
        Some(i) => i,
        None => return None,
    };
    proof {
        lemma_find_char_from_bounds(chars@, ':', 0);
    }
    let j = match find_char(&chars, ':', i + 1) {
        Some(j) => j,
        None => return None,
    };
    proof {
        // the second colon lies after the first
        lemma_find_char_from_bounds(chars@, ':', i as int + 1);
        assert(j < chars@.len());
    }
    let artifact = string_of_range(&chars, i + 1, j);
    let version = string_of_range(&chars, j + 1, chars.len());
    let mut jar_name = artifact.clone();
    jar_name.append("-");
    jar_name.append(version.as_str());
    jar_name.append(".jar");

    let mut lib_path = String::new();
    let mut k: usize = 0;
    while k < i
        invariant
            i < chars@.len(),
            k <= i,
            lib_path@ == dots_to_slashes(chars@.subrange(0, k as int)),
        decreases i - k,
    {
        let c = chars[k];
        push_char(&mut lib_path, if c == '.' { '/' } else { c });
        assert(dots_to_slashes(chars@.subrange(0, k as int + 1)) =~= dots_to_slashes(
            chars@.subrange(0, k as int),
        ).push(if c == '.' { '/' } else { c }));
        k = k + 1;
    }
    lib_path.append("/");
    lib_path.append(artifact.as_str());
    lib_path.append("/");
    lib_path.append(version.as_str());
    lib_path.append("/");
    lib_path.append(jar_name.as_str());
    Some(MavenArtifact { jar_name, lib_path })
}

/// A found index lies in range and holds the character looked for.
pub proof fn lemma_find_char_from_bounds(s: Seq<char>, c: char, from: int)
    requires
        0 <= from,
    ensures
        find_char_from(s, c, from) matches Some(i) ==> from <= i < s.len() && s[i] == c,
    decreases s.len() - from,
{
    if from < s.len() && s[from] != c {
        lemma_find_char_from_bounds(s, c, from + 1);
    }
}

/// `s` without its trailing `c` characters.
pub fn trim_end_matches_char(s: &str, c: char) -> (r: String)
    ensures
        r@ == trim_end_char(s@, c),
{
    let chars = chars_of(s);
    let mut e = chars.len();
    assert(chars@.take(e as int) =~= chars@);
    while e > 0 && chars[e - 1] == c
        invariant
            e <= chars@.len(),
            trim_end_char(chars@, c) == trim_end_char(chars@.take(e as int), c),
        decreases e,
    {
        assert(chars@.take(e as int).drop_last() =~= chars@.take(e as int - 1));
        e = e - 1;
    }
    assert(chars@.subrange(0, e as int) =~= chars@.take(e as int));
    string_of_range(&chars, 0, e)
}

/// Works out where a Fabric library lives in the local library tree and the
/// repository: the name defaults to empty and the repository to Fabric's Maven.
pub fn fabric_library_download(lib: &LibraryEntry) -> (r: Option<FabricDownload>)
    ensures
        match r {
            Some(d) => spec_fabric_library_download(*lib) == Some(
                (d.jar_name@, d.lib_path@, d.download_url@),
            ),
            None => spec_fabric_library_download(*lib) is None,
        },
{
    let name: &str = match &lib.name {
        Some(n) => n.as_str(),
        None => "",
    };
    proof {
        reveal_strlit("");
    }
    let repository: &str = match &lib.url {
        Some(u) => u.as_str(),
        None => "https://maven.fabricmc.net/",
    };
    let artifact = match maven_artifact(name) {
        Some(a) => a,
        None => return None,
    };
    let mut download_url = trim_end_matches_char(repository, '/');
    download_url.append("/");
    download_url.append(artifact.lib_path.as_str());
    Some(FabricDownload { jar_name: artifact.jar_name, lib_path: artifact.lib_path, download_url })
}

/// Trimming leaves a prefix of the input that does not end in the trimmed character.
pub proof fn lemma_trim_end_char(s: Seq<char>, c: char)
    ensures
        trim_end_char(s, c).len() <= s.len(),
        trim_end_char(s, c) == s.subrange(0, trim_end_char(s, c).len() as int),
        trim_end_char(s, c).len() > 0 ==> trim_end_char(s, c).last() != c,
        forall|k: int| trim_end_char(s, c).len() <= k < s.len() ==> s[k] == c,
    decreases s.len(),
{
    if s.len() > 0 && s.last() == c {
        lemma_trim_end_char(s.drop_last(), c);
        let t = trim_end_char(s.drop_last(), c);
        assert(t == s.subrange(0, t.len() as int)) by {
            assert(s.drop_last().subrange(0, t.len() as int) =~= s.subrange(0, t.len() as int));
        }
        assert forall|k: int| t.len() <= k < s.len() implies s[k] == c by {
            if k < s.len() - 1 {
                assert(s.drop_last()[k] == s[k]);
            }
        }
    } else {
        assert(s.subrange(0, s.len() as int) =~= s);
    }
}

/// A Fabric library's URL is the repository with its trailing slashes removed,
/// exactly one slash, then the library's path; and the path ends with the jar name.
pub proof fn law_fabric_url_single_separator(lib: LibraryEntry)
    requires
        spec_fabric_library_download(lib) is Some,
    ensures
        ({
            let (jar, path, url) = spec_fabric_library_download(lib).unwrap();
            let repository = match lib.url {
                Some(u) => u@,
                None => default_fabric_repository(),
            };
            let base = trim_end_char(repository, '/');
            &&& url == base + "/"@ + path
            &&& base == repository.subrange(0, base.len() as int)
            &&& (base.len() > 0 ==> base.last() != '/')
            &&& path.len() >= jar.len()
            &&& path.subrange(path.len() - jar.len(), path.len() as int) == jar
        }),
{
    let (jar, path, url) = spec_fabric_library_download(lib).unwrap();
    let repository = match lib.url {
        Some(u) => u@,
        None => default_fabric_repository(),
    };
    lemma_trim_end_char(repository, '/');
    let name = match lib.name {
        Some(n) => n@,
        None => Seq::<char>::empty(),
    };
    let (g, a, v) = spec_maven_coordinates(name).unwrap();
    let prefix = dots_to_slashes(g) + "/"@ + a + "/"@ + v + "/"@;
    assert(path == prefix + jar);
    assert(path.subrange(path.len() - jar.len(), path.len() as int) =~= jar);
}


/// The first `c` at or after `from` is at `k` when `k` holds one and none lies between.
pub proof fn lemma_find_char_first(s: Seq<char>, c: char, from: int, k: int)
    requires
        0 <= from <= k < s.len(),
        s[k] == c,
        forall|j: int| from <= j < k ==> s[j] != c,
    ensures
        find_char_from(s, c, from) == Some(k),
    decreases k - from,
{
    if from < k {
        lemma_find_char_first(s, c, from + 1, k);
    }
}

/// A coordinate `group:artifact:version` (group and artifact without colons) is
/// stored at `group/with/slashes/artifact/version/artifact-version.jar`.
pub proof fn law_maven_path_of_coordinate(group: Seq<char>, artifact: Seq<char>, version: Seq<char>)
    requires
        forall|i: int| 0 <= i < group.len() ==> group[i] != ':',
        forall|i: int| 0 <= i < artifact.len() ==> artifact[i] != ':',
    ensures
        spec_maven_artifact(group + seq![':'] + artifact + seq![':'] + version) == Some(
            (
                artifact + "-"@ + version + ".jar"@,
                group.map_values(|c: char| if c == '.' { '/' } else { c }) + "/"@ + artifact + "/"@
                    + version + "/"@ + artifact + "-"@ + version + ".jar"@,
            ),
        ),
{
    let name = group + seq![':'] + artifact + seq![':'] + version;
    let i = group.len() as int;
    let j = i + 1 + artifact.len();
    assert forall|x: int| 0 <= x < i implies name[x] != ':' by {
        assert(name[x] == group[x]);
    }
    lemma_find_char_first(name, ':', 0, i);
    assert forall|x: int| i + 1 <= x < j implies name[x] != ':' by {
        assert(name[x] == artifact[x - i - 1]);
    }
    lemma_find_char_first(name, ':', i + 1, j);
    assert(name.subrange(0, i) =~= group);
    assert(name.subrange(i + 1, j) =~= artifact);
    assert(name.subrange(j + 1, name.len() as int) =~= version);
    let jar = artifact + "-"@ + version + ".jar"@;
    assert(spec_maven_path(group, artifact, version) =~= group.map_values(
        |c: char| if c == '.' { '/' } else { c },
    ) + "/"@ + artifact + "/"@ + version + "/"@ + artifact + "-"@ + version + ".jar"@);
}

/// A name with fewer than two colons is no Maven coordinate.
pub proof fn law_maven_needs_two_colons(name: Seq<char>, k: int)
    requires
        0 <= k <= name.len(),
        forall|i: int| 0 <= i < name.len() && i != k ==> name[i] != ':',
    ensures
        spec_maven_artifact(name) is None,
{
    lemma_find_char_from_bounds(name, ':', 0);
    match find_char_from(name, ':', 0) {
        Some(i) => {
            assert(i == k);
            lemma_find_char_from_bounds(name, ':', i + 1);
        },
        None => {},
    }
}

} // verus!
