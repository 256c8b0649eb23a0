use sodium_launcher::auth::{
    callback_page, callback_response, extract_auth_code, refresh_request_body, status_display,
    token_exchange_result, token_request_body,
};
use sodium_launcher::paths::{extension, file_name, native_entry_target, select_mod_files};
use sodium_launcher::platform::Platform;
use sodium_launcher::text::{decimal_string, join_strings};

fn s(x: &str) -> String {
    x.to_string()
}

#[test]
fn token_request_is_form_encoded() {
    let body = token_request_body("M.C5_BAY.2", "ver-ifier_~x", "cid", "http://localhost:8080");
    assert_eq!(
        body,
        "client_id=cid&redirect_uri=http%3A%2F%2Flocalhost%3A8080&grant_type=authorization_code\
         &code=M.C5_BAY.2&code_verifier=ver-ifier_%7Ex&scope=XboxLive.signin+openid+offline_access"
    );
}

#[test]
fn refresh_request_is_form_encoded() {
    let body = refresh_request_body("a b/é", "cid");
    assert_eq!(
        body,
        "client_id=cid&grant_type=refresh_token&refresh_token=a+b%2F%C3%A9\
         &scope=XboxLive.signin+openid+offline_access"
    );
}

#[test]
fn status_lines() {
    assert_eq!(status_display(400), "400 Bad Request");
    assert_eq!(status_display(200), "200 OK");
    assert_eq!(status_display(599), "599 <unknown status code>");
}

#[test]
fn token_exchange_outcomes() {
    assert_eq!(token_exchange_result(200, s("{\"access_token\":\"x\"}")), Ok(s("{\"access_token\":\"x\"}")));
    assert_eq!(token_exchange_result(299, s("b")), Ok(s("b")));
    assert_eq!(token_exchange_result(400, s("bad")), Err(s("Token error 400 Bad Request: bad")));
    assert_eq!(token_exchange_result(302, s("")), Err(s("Token error 302 Found: ")));
}

#[test]
fn auth_code_from_redirect() {
    let req = "GET /?code=M.C507_BAY.2.U.abc%21&state=1 HTTP/1.1\r\nHost: 127.0.0.1:8080\r\n\r\n";
    assert_eq!(extract_auth_code(req), Ok(s("M.C507_BAY.2.U.abc!")));
    let req = "GET /?state=1&code=plain HTTP/1.1\r\n";
    assert_eq!(extract_auth_code(req), Ok(s("plain")));
    let req = "GET /?code=a+b%2 HTTP/1.1";
    assert_eq!(extract_auth_code(req), Ok(s("a+b%2")));
}

#[test]
fn auth_code_missing() {
    let msg = s("Code non trouvé dans la requête");
    assert_eq!(extract_auth_code("GET /?error=access_denied HTTP/1.1"), Err(msg.clone()));
    assert_eq!(extract_auth_code("GET /?code=&state=1 HTTP/1.1"), Err(msg.clone()));
    assert_eq!(extract_auth_code("GET /?code=%FF HTTP/1.1"), Err(msg.clone()));
    assert_eq!(extract_auth_code("code=\t\u{a0}\r\n"), Err(msg));
}

#[test]
fn auth_code_is_trimmed() {
    assert_eq!(extract_auth_code("code=\tabc\u{3000}"), Ok(s("abc")));
}

#[test]
fn callback_response_counts_bytes() {
    let r = callback_response();
    let page = callback_page();
    assert!(page.contains("Connexion réussie"));
    let expected = format!(
        "HTTP/1.1 200 OK\r\nContent-Type: text/html; charset=UTF-8\r\nContent-Length: {}\r\nConnection: close\r\n\r\n{}",
        page.len(),
        page
    );
    assert_eq!(r, expected);
    assert!(page.len() > page.chars().count());
}

#[test]
fn decimal_rendering() {
    assert_eq!(decimal_string(0), "0");
    assert_eq!(decimal_string(7), "7");
    assert_eq!(decimal_string(120), "120");
    assert_eq!(decimal_string(u64::MAX), u64::MAX.to_string());
}

#[test]
fn joining() {
    assert_eq!(join_strings(&vec![s("a"), s("b"), s("c")], ", "), "a, b, c");
    assert_eq!(join_strings(&vec![s("a")], ":"), "a");
    assert_eq!(join_strings(&vec![], ":"), "");
}

#[test]
fn file_names_and_extensions() {
    assert_eq!(file_name("org/lwjgl/liblwjgl.so", Platform::Linux), Some(s("liblwjgl.so")));
    assert_eq!(file_name("a/b/", Platform::Linux), Some(s("b")));
    assert_eq!(file_name("a/b/.", Platform::Linux), Some(s("b")));
    assert_eq!(file_name("a/..", Platform::Linux), None);
    assert_eq!(file_name("/", Platform::Linux), None);
    assert_eq!(file_name("", Platform::Linux), None);
    assert_eq!(file_name(".", Platform::Linux), None);
    assert_eq!(extension("windows/x64/lwjgl.dll", Platform::Linux), Some(s("dll")));
    assert_eq!(extension("lib/.so", Platform::Linux), None);
    assert_eq!(extension("a.tar.gz", Platform::Linux), Some(s("gz")));
    assert_eq!(extension("noext", Platform::Linux), None);
    assert_eq!(extension("trailing.", Platform::Linux), Some(s("")));
}

#[test]
fn std_paths_agree_on_unix_names() {
    for name in ["org/lwjgl/liblwjgl.so", "a/b/", "a/b/.", "a/..", "/", "", ".", "x/.hidden", "a.b/c.d", "./a.so"] {
        let p = std::path::Path::new(name);
        assert_eq!(file_name(name, Platform::Linux), p.file_name().map(|f| f.to_string_lossy().into_owned()), "{}", name);
        assert_eq!(extension(name, Platform::Linux), p.extension().map(|e| e.to_string_lossy().into_owned()), "{}", name);
    }
}

#[test]
fn native_entries() {
    assert_eq!(native_entry_target("META-INF/lib.so", Platform::Linux), Ok(None));
    assert_eq!(native_entry_target("org/lwjgl/liblwjgl.so", Platform::Linux), Ok(Some(s("liblwjgl.so"))));
    assert_eq!(native_entry_target("windows/x64/org/lwjgl/lwjgl.dll", Platform::Linux), Ok(Some(s("lwjgl.dll"))));
    assert_eq!(native_entry_target("macos/liblwjgl.dylib", Platform::Linux), Ok(Some(s("liblwjgl.dylib"))));
    assert_eq!(native_entry_target("org/lwjgl/Version.class", Platform::Linux), Ok(None));
    assert_eq!(native_entry_target("org/lwjgl/", Platform::Linux), Ok(None));
}

#[test]
fn mod_listing() {
    let names = vec![s("fabric-api.jar"), s("notes.txt"), s("sodium.jar"), s(".jar"), s("x.JAR")];
    assert_eq!(select_mod_files(&names, Platform::Linux), vec![s("fabric-api.jar"), s("sodium.jar")]);
}

#[test]
fn form_values_cannot_break_the_body() {
    let body = token_request_body("a&b=c", "v", "id", "r");
    assert!(body.contains("&code=a%26b%3Dc&"));
    assert_eq!(body.matches('&').count(), 5);
    assert_eq!(body.matches('=').count(), 6);
}

#[test]
fn native_entries_are_never_invalid() {
    for name in ["", "/", "..", "a/..", ".so", "x.so/..", "META-INF", "a/b.dll/", "./c.dylib"] {
        assert!(native_entry_target(name, Platform::Linux).is_ok(), "{}", name);
    }
    assert_eq!(native_entry_target("a/b.dll/", Platform::Linux), Ok(Some(s("b.dll"))));
}

#[test]
fn windows_entry_names() {
    let w = Platform::Windows;
    assert_eq!(file_name("natives\\x.dll", w), Some(s("x.dll")));
    assert_eq!(file_name("natives\\x.dll", Platform::Linux), Some(s("natives\\x.dll")));
    assert_eq!(file_name("a/b\\c.dll\\", w), Some(s("c.dll")));
    assert_eq!(file_name("C:x.dll", w), Some(s("x.dll")));
    assert_eq!(file_name("C:", w), None);
    assert_eq!(file_name("C:\\", w), None);
    assert_eq!(file_name("\\\\server\\share", w), None);
    assert_eq!(file_name("\\\\server\\share\\a.dll", w), Some(s("a.dll")));
    assert_eq!(file_name("//server/share/a.dll", w), Some(s("a.dll")));
    assert_eq!(file_name("\\\\server\\\\a.dll", w), Some(s("a.dll")));
    assert_eq!(file_name("\\\\.\\COM1", w), None);
    assert_eq!(file_name("\\\\?\\C:\\a\\.", w), None);
    assert_eq!(file_name("\\\\?\\C:\\a/b", w), Some(s("a/b")));
    assert_eq!(file_name("\\\\?\\UNC\\server\\share", w), None);
    assert_eq!(file_name("\\\\?\\UNC\\server\\share\\x.so", w), Some(s("x.so")));
    assert_eq!(file_name("\\\\?\\pictures", w), None);
    assert_eq!(file_name("a\\..", w), None);
    assert_eq!(extension("lib\\lwjgl.dll", w), Some(s("dll")));
    assert_eq!(native_entry_target("windows\\x64\\lwjgl.dll", w), Ok(Some(s("lwjgl.dll"))));
    assert_eq!(native_entry_target("META-INF\\x.dll", w), Ok(None));
    assert_eq!(select_mod_files(&vec![s("a.jar"), s("b.zip")], w), vec![s("a.jar")]);
}

/// Reads a form body back as the standard parser does.
fn parse_form(body: &str) -> Vec<(String, String)> {
    url::form_urlencoded::parse(body.as_bytes()).into_owned().collect()
}

#[test]
fn token_request_reads_back() {
    let code = "a&b=c+d%20e f/é";
    let body = token_request_body(code, "v=1&2", "id+x", "http://localhost:8080/?q=1");
    assert_eq!(
        parse_form(&body),
        vec![
            (s("client_id"), s("id+x")),
            (s("redirect_uri"), s("http://localhost:8080/?q=1")),
            (s("grant_type"), s("authorization_code")),
            (s("code"), s(code)),
            (s("code_verifier"), s("v=1&2")),
            (s("scope"), s("XboxLive.signin openid offline_access")),
        ]
    );
    let body = refresh_request_body("%%&==", "");
    assert_eq!(
        parse_form(&body),
        vec![
            (s("client_id"), s("")),
            (s("grant_type"), s("refresh_token")),
            (s("refresh_token"), s("%%&==")),
            (s("scope"), s("XboxLive.signin openid offline_access")),
        ]
    );
}
