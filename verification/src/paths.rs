use vstd::prelude::*;
use crate::platform::Platform;
use crate::text::{chars_of, string_of_range, string_views};

verus! {

/// Which characters separate the components of a path.
#[derive(Clone, Copy, Debug, PartialEq, Eq, Structural)]
pub enum Separators {
    /// `/` only: Unix paths.
    Slash,
    /// `/` and `\`: Windows paths.
    SlashOrBackslash,
    /// `\` only: Windows verbatim (`\\?\`) paths.
    Backslash,
}

/// Whether `c` separates path components under `seps`.
pub open spec fn is_separator(c: char, seps: Separators) -> bool {
    match seps {
        Separators::Slash => c == '/',
        Separators::SlashOrBackslash => c == '/' || c == '\\',
        Separators::Backslash => c == '\\',
    }
}

/// The index just after the last separator of `s` (0 where there is none):
/// where the last component starts.
pub open spec fn last_component_start(s: Seq<char>, seps: Separators) -> int
    decreases s.len(),
{
    if s.len() == 0 {
        0
    } else if is_separator(s.last(), seps) {
        s.len() as int
    } else {
        last_component_start(s.drop_last(), seps)
    }
}

/// The file name of the part of a path after its prefix, as `Path::file_name`
/// reads it: empty components are ignored, and so are `.` components except in
/// verbatim paths (`dot_is_component`), where a final `.` leaves no file name; a
/// path that ends in `..`, or has no component left, has none.
pub open spec fn body_file_name(s: Seq<char>, seps: Separators, dot_is_component: bool) -> Option<
    Seq<char>,
>
    decreases s.len(),
{
    if s.len() == 0 {
        None
    } else if is_separator(s.last(), seps) {
        body_file_name(s.drop_last(), seps, dot_is_component)
    } else {
        let last = s.subrange(last_component_start(s, seps), s.len() as int);
        if last == "."@ {
            if dot_is_component {
                None
            } else {
                body_file_name(s.drop_last(), seps, dot_is_component)
            }
        } else if last == ".."@ {
            None
        } else {
            Some(last)
        }
    }
}

/// The index of the first separator of `s` at or after `from` (its length where
/// there is none): where a prefix component ends.
pub open spec fn component_end(s: Seq<char>, from: int, seps: Separators) -> int
    decreases s.len() - from,
{
    if from >= s.len() {
        s.len() as int
    } else if is_separator(s[from], seps) {
        from
    } else {
        component_end(s, from + 1, seps)
    }
}

/// Whether `c` is an ASCII letter.
pub open spec fn is_ascii_letter(c: char) -> bool {
    ('a' <= c <= 'z') || ('A' <= c <= 'Z')
}

/// The prefix of a Windows path, as its length and whether it is verbatim:
/// `\\?\UNC\server\share`, `\\?\C:` and `\\?\name` (verbatim), `\\.\device`,
/// `\\server\share` (server and share not empty; either slash may stand for the
/// first separators) and `C:`; `(0, false)` where there is none.
pub open spec fn windows_prefix(s: Seq<char>) -> (int, bool) {
    let n = s.len() as int;
    if n >= 4 && s[0] == '\\' && s[1] == '\\' && s[2] == '?' && s[3] == '\\' {
        if n >= 8 && s[4] == 'U' && s[5] == 'N' && s[6] == 'C' && s[7] == '\\' {
            let server_end = component_end(s, 8, Separators::Backslash);
            if server_end < n {
                (component_end(s, server_end + 1, Separators::Backslash), true)
            } else {
                (server_end, true)
            }
        } else if n >= 6 && is_ascii_letter(s[4]) && s[5] == ':' && (n == 6 || s[6] == '\\') {
            (6, true)
        } else {
            (component_end(s, 4, Separators::Backslash), true)
        }
    } else if n >= 2 && is_separator(s[0], Separators::SlashOrBackslash) && is_separator(
        s[1],
        Separators::SlashOrBackslash,
    ) {
        if n >= 4 && s[2] == '.' && is_separator(s[3], Separators::SlashOrBackslash) {
            (component_end(s, 4, Separators::SlashOrBackslash), false)
        } else {
            let server_end = component_end(s, 2, Separators::SlashOrBackslash);
            if server_end > 2 && server_end < n {
                let share_end = component_end(s, server_end + 1, Separators::SlashOrBackslash);
                if share_end > server_end + 1 {
                    (share_end, false)
                } else {
                    (0, false)
                }
            } else {
                (0, false)
            }
        }
    } else if n >= 2 && is_ascii_letter(s[0]) && s[1] == ':' {
        (2, false)
    } else {
        (0, false)
    }
}

/// The file name of a path as `std::path::Path::file_name` reads it on
/// `platform`: on Unix components are separated by `/`; on Windows by `/` and `\`
/// after the path's prefix, or by `\` alone in a verbatim path.
pub open spec fn spec_file_name(s: Seq<char>, platform: Platform) -> Option<Seq<char>> {
    match platform {
        Platform::Windows => {
            let (p, verbatim) = windows_prefix(s);
            body_file_name(
                s.subrange(p, s.len() as int),
                if verbatim { Separators::Backslash } else { Separators::SlashOrBackslash },
                verbatim,
            )
        },
        _ => body_file_name(s, Separators::Slash, false),
    }
}

/// The index of the last `.` of `s`, if any.
pub open spec fn last_dot(s: Seq<char>) -> Option<int>
    decreases s.len(),
{
    if s.len() == 0 {
        None
    } else if s.last() == '.' {
        Some(s.len() - 1)
    } else {
        last_dot(s.drop_last())
    }
}

/// The extension of a file name, as `Path::extension` reads it: what follows its
/// last dot, where that dot is not its first character.
pub open spec fn spec_name_extension(file_name: Seq<char>) -> Option<Seq<char>> {
    match last_dot(file_name) {
        Some(d) => if d > 0 {
            Some(file_name.subrange(d + 1, file_name.len() as int))
        } else {
            None
        },
        None => None,
    }
}

/// The extension of a path on `platform`.
pub open spec fn spec_extension(s: Seq<char>, platform: Platform) -> Option<Seq<char>> {
    match spec_file_name(s, platform) {
        Some(f) => spec_name_extension(f),
        None => None,
    }
}

fn separator(c: char, seps: Separators) -> (r: bool)
    ensures
        r == is_separator(c, seps),
{
    match seps {
        Separators::Slash => c == '/',
        Separators::SlashOrBackslash => c == '/' || c == '\\',
        Separators::Backslash => c == '\\',
    }
}

fn find_component_start(v: &Vec<char>, start: usize, end: usize, seps: Separators) -> (k: usize)
    requires
        start <= end <= v@.len(),
    ensures
        start <= k <= end,
        k - start == last_component_start(v@.subrange(start as int, end as int), seps),
{
    let mut k = end;
    while k > start && !separator(v[k - 1], seps)
        invariant
            start <= k <= end <= v@.len(),
            last_component_start(v@.subrange(start as int, end as int), seps)
                == last_component_start(v@.subrange(start as int, k as int), seps),
        decreases k,
    {
        assert(v@.subrange(start as int, k as int).drop_last() =~= v@.subrange(
            start as int,
            k - 1,
        ));
        k = k - 1;
    }
    proof {
        if k > start {
            assert(v@.subrange(start as int, k as int).last() == v@[k - 1]);
        }
    }
    k
}

fn find_component_end(v: &Vec<char>, from: usize, seps: Separators) -> (e: usize)
    requires
        from <= v@.len(),
    ensures
        e == component_end(v@, from as int, seps),
        from <= e <= v@.len(),
{
    let mut e = from;
    while e < v.len() && !separator(v[e], seps)
        invariant
            from <= e <= v@.len(),
            component_end(v@, from as int, seps) == component_end(v@, e as int, seps),
        decreases v@.len() - e,
    {
        e = e + 1;
    }
    e
}

fn ascii_letter(c: char) -> (r: bool)
    ensures
        r == is_ascii_letter(c),
{
    ('a' <= c && c <= 'z') || ('A' <= c && c <= 'Z')
}

/// The prefix of a Windows path (see `windows_prefix`).
fn windows_prefix_of(v: &Vec<char>) -> (r: (usize, bool))
    ensures
        r.0 as int == windows_prefix(v@).0,
        r.1 == windows_prefix(v@).1,
        r.0 <= v@.len(),
{
    let n = v.len();
    if n >= 4 && v[0] == '\\' && v[1] == '\\' && v[2] == '?' && v[3] == '\\' {
        if n >= 8 && v[4] == 'U' && v[5] == 'N' && v[6] == 'C' && v[7] == '\\' {
            let server_end = find_component_end(v, 8, Separators::Backslash);
            if server_end < n {
                (find_component_end(v, server_end + 1, Separators::Backslash), true)
            } else {
                (server_end, true)
            }
        } else if n >= 6 && ascii_letter(v[4]) && v[5] == ':' && (n == 6 || v[6] == '\\') {
            (6, true)
        } else {
            (find_component_end(v, 4, Separators::Backslash), true)
        }
    } else if n >= 2 && separator(v[0], Separators::SlashOrBackslash) && separator(
        v[1],
        Separators::SlashOrBackslash,
    ) {
        if n >= 4 && v[2] == '.' && separator(v[3], Separators::SlashOrBackslash) {
            (find_component_end(v, 4, Separators::SlashOrBackslash), false)
        } else {
            let server_end = find_component_end(v, 2, Separators::SlashOrBackslash);
            if server_end > 2 && server_end < n {
                let share_end = find_component_end(v, server_end + 1, Separators::SlashOrBackslash);
                if share_end > server_end + 1 {
                    (share_end, false)
                } else {
                    (0, false)
                }
            } else {
                (0, false)
            }
        }
    } else if n >= 2 && ascii_letter(v[0]) && v[1] == ':' {
        (2, false)
    } else {
        (0, false)
    }
}

fn range_is(v: &Vec<char>, start: usize, end: usize, pat: &str) -> (r: bool)
    requires
        start <= end <= v@.len(),
    ensures
        r == (v@.subrange(start as int, end as int) == pat@),
{
    let p = chars_of(pat);
    if p.len() != end - start {
        proof {
            assert(v@.subrange(start as int, end as int).len() != pat@.len());
        }
        return false;
    }
    let n = p.len();
    for i in 0..n
        invariant
            n == p@.len(),
            p@ == pat@,
            start + n == end,
            end <= v@.len(),
            forall|j: int| 0 <= j < i ==> v@[start + j] == p@[j],
    {
        if v[start + i] != p[i] {
            assert(v@.subrange(start as int, end as int)[i as int] != pat@[i as int]);
            return false;
        }
    }
    assert(v@.subrange(start as int, end as int) =~= pat@);
    true
}

/// The file name of the part of `v` from `start` on (see `body_file_name`).
fn body_file_name_of(v: &Vec<char>, start: usize, seps: Separators, dot_is_component: bool) -> (r:
    Option<String>)
    requires
        start <= v@.len(),
    ensures
        match r {
            Some(f) => body_file_name(v@.subrange(start as int, v@.len() as int), seps, dot_is_component)
                == Some(f@),
            None => body_file_name(
                v@.subrange(start as int, v@.len() as int),
                seps,
                dot_is_component,
            ) is None,
        },
{
    let mut end = v.len();
    loop
        invariant
            start <= end <= v@.len(),
            body_file_name(v@.subrange(start as int, v@.len() as int), seps, dot_is_component)
                == body_file_name(v@.subrange(start as int, end as int), seps, dot_is_component),
        decreases end,
    {
        let ghost cur = v@.subrange(start as int, end as int);
        if end == start {
            return None;
        }
        assert(cur.drop_last() =~= v@.subrange(start as int, end - 1));
        assert(cur.last() == v@[end - 1]);
        if separator(v[end - 1], seps) {
            end = end - 1;
        } else {
            let k = find_component_start(v, start, end, seps);
            assert(cur.subrange(k - start, end - start) =~= v@.subrange(k as int, end as int));
            if range_is(v, k, end, ".") {
                if dot_is_component {
                    return None;
                }
                end = end - 1;
            } else if range_is(v, k, end, "..") {
                return None;
            } else {
                return Some(string_of_range(v, k, end));
            }
        }
    }
}

/// The file name of a path on `platform` (see `spec_file_name`).
pub fn file_name(path: &str, platform: Platform) -> (r: Option<String>)
    ensures
        match r {
            Some(f) => spec_file_name(path@, platform) == Some(f@),
            None => spec_file_name(path@, platform) is None,
        },
{
    let v = chars_of(path);
    match platform {
        Platform::Windows => {
            let (p, verbatim) = windows_prefix_of(&v);
            let seps = if verbatim {
                Separators::Backslash
            } else {
                Separators::SlashOrBackslash
            };
            body_file_name_of(&v, p, seps, verbatim)
        },
        _ => {
            assert(v@.subrange(0, v@.len() as int) =~= v@);
            body_file_name_of(&v, 0, Separators::Slash, false)
        },
    }
}

/// The extension of a file name (see `spec_name_extension`).
pub fn name_extension(file_name: &str) -> (r: Option<String>)
    ensures
        match r {
            Some(e) => spec_name_extension(file_name@) == Some(e@),
            None => spec_name_extension(file_name@) is None,
        },
{
    let v = chars_of(file_name);
    let mut d = v.len();
    assert(v@.take(d as int) =~= v@);
    while d > 0 && v[d - 1] != '.'
        invariant
            d <= v@.len(),
            last_dot(v@) == last_dot(v@.take(d as int)),
        decreases d,
    {
        assert(v@.take(d as int).drop_last() =~= v@.take(d - 1));
        d = d - 1;
    }
    if d == 0 {
        return None;
    }
    assert(v@.take(d as int).last() == '.');
    if d == 1 {
        return None;
    }
    Some(string_of_range(&v, d, v.len()))
}

/// The extension of a path on `platform` (see `spec_extension`).
pub fn extension(path: &str, platform: Platform) -> (r: Option<String>)
    ensures
        match r {
            Some(e) => spec_extension(path@, platform) == Some(e@),
            None => spec_extension(path@, platform) is None,
        },
{
    match file_name(path, platform) {
        Some(f) => name_extension(f.as_str()),
        None => None,
    }
}

/// Whether `s` starts with `prefix`.
pub fn starts_with(s: &str, prefix: &str) -> (r: bool)
    ensures
        r == (prefix@.len() <= s@.len() && s@.subrange(0, prefix@.len() as int) == prefix@),
{
    let v = chars_of(s);
    if prefix.unicode_len() > v.len() {
        return false;
    }
    range_is(&v, 0, prefix.unicode_len(), prefix)
}

/// Extensions of the native libraries worth extracting.
pub open spec fn is_native_extension(e: Seq<char>) -> bool {
    e == "dll"@ || e == "dylib"@ || e == "so"@
}

/// What becomes of an entry of a native jar: entries under `META-INF` and those
/// that are no `.dll`, `.dylib` or `.so` are skipped (`Ok(None)`); the others are
/// extracted under their file name alone (`Ok(Some(name))`).
pub open spec fn spec_native_entry_target(name: Seq<char>, platform: Platform) -> Result<Option<Seq<char>>, Seq<char>> {
    if "META-INF"@.len() <= name.len() && name.subrange(0, 8) == "META-INF"@ {
        Ok(None)
    } else if !(spec_extension(name, platform) matches Some(e) && is_native_extension(e)) {
        Ok(None)
    } else {
        match spec_file_name(name, platform) {
            Some(f) => Ok(Some(f)),
            None => Err("Nom invalide dans le JAR : "@ + name),
        }
    }
}

/// Decides whether an entry of a native jar is extracted, and under which name.
pub fn native_entry_target(name: &str, platform: Platform) -> (r: Result<Option<String>, String>)
    ensures
        match r {
            Ok(Some(f)) => spec_native_entry_target(name@, platform) == Ok::<Option<Seq<char>>, Seq<char>>(
                Some(f@),
            ),
            Ok(None) => spec_native_entry_target(name@, platform) == Ok::<Option<Seq<char>>, Seq<char>>(
                None,
            ),
            Err(e) => spec_native_entry_target(name@, platform) == Err::<Option<Seq<char>>, Seq<char>>(e@),
        },
{
    proof {
        reveal_strlit("META-INF");
    }
    if starts_with(name, "META-INF") {
        return Ok(None);
    }
    let dll = String::from_str("dll");
    let dylib = String::from_str("dylib");
    let so = String::from_str("so");
    let native = match extension(name, platform) {
        Some(e) => e == dll || e == dylib || e == so,
        None => false,
    };
    if !native {
        return Ok(None);
    }
    match file_name(name, platform) {
        Some(f) => Ok(Some(f)),
        None => {
            let mut e = String::from_str("Nom invalide dans le JAR : ");
            e.append(name);
            Err(e)
        },
    }
}

/// A path with an extension has a file name, so no entry of a native jar is ever
/// reported as invalid.
pub proof fn law_native_entry_never_invalid(name: Seq<char>, platform: Platform)
    ensures
        spec_native_entry_target(name, platform) is Ok,
{
}

/// Whether a file of the mods directory is a mod: its extension is `jar`.
pub open spec fn is_mod_file(name: Seq<char>, platform: Platform) -> bool {
    spec_extension(name, platform) == Some("jar"@)
}

/// The mods among the files of the mods directory, in the given order.
pub open spec fn spec_mod_files(names: Seq<Seq<char>>, platform: Platform) -> Seq<Seq<char>>
    decreases names.len(),
{
    if names.len() == 0 {
        seq![]
    } else {
        let rest = spec_mod_files(names.drop_last(), platform);
        if is_mod_file(names.last(), platform) {
            rest.push(names.last())
        } else {
            rest
        }
    }
}

/// Keeps the file names that are mods (`.jar` files), in order.
pub fn select_mod_files(names: &Vec<String>, platform: Platform) -> (mods: Vec<String>)
    ensures
        string_views(mods@) == spec_mod_files(string_views(names@), platform),
{
    let ghost views = string_views(names@);
    let jar = String::from_str("jar");
    let mut mods: Vec<String> = Vec::new();
    let n = names.len();
    for i in 0..n
        invariant
            n == names@.len(),
            views == string_views(names@),
            jar@ == "jar"@,
            string_views(mods@) == spec_mod_files(views.take(i as int), platform),
    {
        assert(views.take(i + 1).drop_last() =~= views.take(i as int));
        assert(views.take(i + 1).last() == names@[i as int]@);
        let is_mod = match extension(names[i].as_str(), platform) {
            Some(e) => e == jar,
            None => false,
        };
        if is_mod {
            let ghost before = mods@;
            mods.push(names[i].clone());
            assert(string_views(mods@) =~= string_views(before).push(names@[i as int]@));
        }
    }
    assert(views.take(n as int) =~= views);
    mods
}


/// The last component of `x + [sep] + b` starts right after that separator when
/// `b` holds none.
proof fn lemma_last_component_after(x: Seq<char>, sep: char, b: Seq<char>, seps: Separators)
    requires
        is_separator(sep, seps),
        forall|i: int| 0 <= i < b.len() ==> !is_separator(#[trigger] b[i], seps),
    ensures
        last_component_start(x + seq![sep] + b, seps) == x.len() + 1,
    decreases b.len(),
{
    let s = x + seq![sep] + b;
    if b.len() == 0 {
        assert(s.last() == sep);
    } else {
        assert(s.last() == b.last());
        assert(s.drop_last() =~= x + seq![sep] + b.drop_last());
        lemma_last_component_after(x, sep, b.drop_last(), seps);
    }
}

/// The file name of the part after the prefix, where it ends in a separator and a
/// plain component `b`, is `b`.
proof fn lemma_body_file_name_last(x: Seq<char>, sep: char, b: Seq<char>, seps: Separators, dot: bool)
    requires
        is_separator(sep, seps),
        b.len() > 0,
        b != "."@,
        b != ".."@,
        forall|i: int| 0 <= i < b.len() ==> !is_separator(#[trigger] b[i], seps),
    ensures
        body_file_name(x + seq![sep] + b, seps, dot) == Some(b),
{
    let s = x + seq![sep] + b;
    lemma_last_component_after(x, sep, b, seps);
    assert(s.last() == b.last());
    assert(s.subrange(x.len() as int + 1, s.len() as int) =~= b);
}

/// On Unix the file name of `a/b`, where `b` is a plain component (not empty, no
/// `/`, neither `.` nor `..`), is `b`.
pub proof fn law_unix_file_name(a: Seq<char>, b: Seq<char>)
    requires
        b.len() > 0,
        b != "."@,
        b != ".."@,
        forall|i: int| 0 <= i < b.len() ==> b[i] != '/',
    ensures
        spec_file_name(a + seq!['/'] + b, Platform::Linux) == Some(b),
        spec_file_name(a + seq!['/'] + b, Platform::MacOs) == Some(b),
{
    assert forall|i: int| 0 <= i < b.len() implies !is_separator(#[trigger] b[i], Separators::Slash) by {}
    lemma_body_file_name_last(a, '/', b, Separators::Slash, false);
}

/// On Windows the file name of `a\b` or `a/b`, where `b` is a plain component
/// (not empty, no `/` or `\`, neither `.` nor `..`) and the path's prefix ends
/// within `a`, is `b`; a `\` separates there in every kind of path.
pub proof fn law_windows_file_name(a: Seq<char>, sep: char, b: Seq<char>)
    requires
        sep == '\\' || (sep == '/' && !windows_prefix(a + seq![sep] + b).1),
        b.len() > 0,
        b != "."@,
        b != ".."@,
        forall|i: int| 0 <= i < b.len() ==> b[i] != '/' && b[i] != '\\',
        0 <= windows_prefix(a + seq![sep] + b).0 <= a.len(),
    ensures
        spec_file_name(a + seq![sep] + b, Platform::Windows) == Some(b),
{
    let s = a + seq![sep] + b;
    let (p, verbatim) = windows_prefix(s);
    let seps = if verbatim { Separators::Backslash } else { Separators::SlashOrBackslash };
    let x = a.subrange(p, a.len() as int);
    assert(s.subrange(p, s.len() as int) =~= x + seq![sep] + b);
    assert forall|i: int| 0 <= i < b.len() implies !is_separator(#[trigger] b[i], seps) by {}
    lemma_body_file_name_last(x, sep, b, seps, verbatim);
}

/// The extension is what follows the last dot of the file name, provided that dot
/// is not the name's first character.
pub proof fn law_extension_after_last_dot(stem: Seq<char>, ext: Seq<char>)
    requires
        stem.len() > 0,
        forall|i: int| 0 <= i < ext.len() ==> ext[i] != '.',
    ensures
        spec_name_extension(stem + seq!['.'] + ext) == Some(ext),
{
    lemma_last_dot_after(stem, ext);
    let f = stem + seq!['.'] + ext;
    assert(f.subrange(stem.len() as int + 1, f.len() as int) =~= ext);
}

proof fn lemma_last_dot_after(stem: Seq<char>, ext: Seq<char>)
    requires
        forall|i: int| 0 <= i < ext.len() ==> ext[i] != '.',
    ensures
        last_dot(stem + seq!['.'] + ext) == Some(stem.len() as int),
    decreases ext.len(),
{
    let f = stem + seq!['.'] + ext;
    if ext.len() == 0 {
        assert(f.last() == '.');
    } else {
        assert(f.last() == ext.last());
        assert(f.drop_last() =~= stem + seq!['.'] + ext.drop_last());
        lemma_last_dot_after(stem, ext.drop_last());
    }
}

} // verus!
