use vstd::prelude::*;
use vstd::utf8::{decode_utf8, encode_utf8, valid_utf8};
use crate::text::{chars_of, decimal, decimal_string, seq_join, string_of_range};

verus! {

/* Form encoding (application/x-www-form-urlencoded), as the url crate does it */

/// Bytes that form encoding leaves as they are: ASCII letters, digits and `*-._`.
pub open spec fn form_unchanged(b: u8) -> bool {
    b == 0x2a || b == 0x2d || b == 0x2e || (0x30 <= b <= 0x39) || (0x41 <= b <= 0x5a) || b == 0x5f
        || (0x61 <= b <= 0x7a)
}

/// The upper-case hexadecimal digit of `n < 16`.
pub open spec fn upper_hex_digit(n: int) -> char {
    if n < 10 {
        ((48 + n) as u8) as char
    } else {
        ((55 + n) as u8) as char
    }
}

/// The form encoding of one byte: itself if unchanged, `+` for a space, else `%XX`.
pub open spec fn form_byte(b: u8) -> Seq<char> {
    if form_unchanged(b) {
        seq![b as char]
    } else if b == 0x20 {
        seq!['+']
    } else {
        seq!['%', upper_hex_digit(b as int / 16), upper_hex_digit(b as int % 16)]
    }
}

/// The form encoding of a byte sequence, byte by byte.
pub open spec fn form_bytes(bs: Seq<u8>) -> Seq<char>
    decreases bs.len(),
{
    if bs.len() == 0 {
        seq![]
    } else {
        form_byte(bs[0]) + form_bytes(bs.drop_first())
    }
}

/// The form encoding of a text: that of its UTF-8 bytes.
pub open spec fn form_component(s: Seq<char>) -> Seq<char> {
    form_bytes(encode_utf8(s))
}

/// The encoding of one `name=value` pair.
pub open spec fn form_pair(pair: (Seq<char>, Seq<char>)) -> Seq<char> {
    form_component(pair.0) + seq!['='] + form_component(pair.1)
}

/// The encoding of a list of pairs: the encoded pairs joined with `&`.
pub open spec fn form_body(pairs: Seq<(Seq<char>, Seq<char>)>) -> Seq<char> {
    seq_join(pairs.map_values(|p: (Seq<char>, Seq<char>)| form_pair(p)), seq!['&'])
}

/// The character sequences of a list of string pairs.
pub open spec fn pair_views(pairs: Seq<(String, String)>) -> Seq<(Seq<char>, Seq<char>)> {
    pairs.map_values(|p: (String, String)| (p.0@, p.1@))
}

/// Form-encodes `pairs` with the url crate's `form_urlencoded::Serializer`
/// (`extend_pairs`, then `finish`). Claimed, as its source shows: each pair is
/// written `name=value`, pairs are separated by `&`, and names and values are
/// encoded byte by byte from UTF-8, keeping ASCII letters, digits and `*-._`,
/// writing a space as `+` and any other byte as `%` and two upper-case hex digits.
#[verifier::external_body]
fn encode_form_pairs(pairs: &Vec<(String, String)>) -> (body: String)
    ensures
        body@ == form_body(pair_views(pairs@)),
{
    url::form_urlencoded::Serializer::new(String::new()).extend_pairs(pairs.iter()).finish()
}

/// The scope requested from Microsoft.
pub open spec fn oauth_scope() -> Seq<char> {
    "XboxLive.signin openid offline_access"@
}

/// The pairs of the request exchanging an authorization code for tokens.
pub open spec fn spec_token_request_pairs(
    code: Seq<char>,
    code_verifier: Seq<char>,
    client_id: Seq<char>,
    redirect_uri: Seq<char>,
) -> Seq<(Seq<char>, Seq<char>)> {
    seq![
        ("client_id"@, client_id),
        ("redirect_uri"@, redirect_uri),
        ("grant_type"@, "authorization_code"@),
        ("code"@, code),
        ("code_verifier"@, code_verifier),
        ("scope"@, oauth_scope()),
    ]
}

/// The pairs of the request renewing tokens with a refresh token.
pub open spec fn spec_refresh_request_pairs(refresh_token: Seq<char>, client_id: Seq<char>) -> Seq<
    (Seq<char>, Seq<char>),
> {
    seq![
        ("client_id"@, client_id),
        ("grant_type"@, "refresh_token"@),
        ("refresh_token"@, refresh_token),
        ("scope"@, oauth_scope()),
    ]
}

fn push_pair(pairs: &mut Vec<(String, String)>, name: &str, value: &str)
    ensures
        pair_views(final(pairs)@) == pair_views(old(pairs)@).push((name@, value@)),
{
    pairs.push((String::from_str(name), String::from_str(value)));
    assert(pair_views(pairs@) =~= pair_views(old(pairs)@).push((name@, value@)));
}

/// The form body sent to Microsoft to exchange an authorization code (with its
/// PKCE verifier) for tokens.
pub fn token_request_body(code: &str, code_verifier: &str, client_id: &str, redirect_uri: &str) -> (body: String)
    ensures
        body@ == form_body(spec_token_request_pairs(code@, code_verifier@, client_id@, redirect_uri@)),
{
    let mut pairs: Vec<(String, String)> = Vec::new();
    push_pair(&mut pairs, "client_id", client_id);
    push_pair(&mut pairs, "redirect_uri", redirect_uri);
    push_pair(&mut pairs, "grant_type", "authorization_code");
    push_pair(&mut pairs, "code", code);
    push_pair(&mut pairs, "code_verifier", code_verifier);
    push_pair(&mut pairs, "scope", "XboxLive.signin openid offline_access");
    assert(pair_views(pairs@) =~= spec_token_request_pairs(
        code@,
        code_verifier@,
        client_id@,
        redirect_uri@,
    ));
    encode_form_pairs(&pairs)
}

/// The form body sent to Microsoft to renew tokens with a refresh token.
pub fn refresh_request_body(refresh_token: &str, client_id: &str) -> (body: String)
    ensures
        body@ == form_body(spec_refresh_request_pairs(refresh_token@, client_id@)),
{
    let mut pairs: Vec<(String, String)> = Vec::new();
    push_pair(&mut pairs, "client_id", client_id);
    push_pair(&mut pairs, "grant_type", "refresh_token");
    push_pair(&mut pairs, "refresh_token", refresh_token);
    push_pair(&mut pairs, "scope", "XboxLive.signin openid offline_access");
    assert(pair_views(pairs@) =~= spec_refresh_request_pairs(refresh_token@, client_id@));
    encode_form_pairs(&pairs)
}

/* Status lines */

/// The reason phrase that the http crate (behind reqwest's `StatusCode`) gives a
/// status code, if it knows one.
pub uninterp spec fn http_canonical_reason(code: u16) -> Option<Seq<char>>;

/// Calls `reqwest::StatusCode::from_u16` then `canonical_reason`. Claimed: the
/// result depends on the code alone (a fixed table in the http crate).
#[verifier::external_body]
fn canonical_reason(code: u16) -> (reason: Option<&'static str>)
    requires
        100 <= code <= 999,
    ensures
        match reason {
            Some(r) => http_canonical_reason(code) == Some(r@),
            None => http_canonical_reason(code) is None,
        },
{
    match reqwest::StatusCode::from_u16(code) {
        Ok(status) => status.canonical_reason(),
        Err(_) => None,
    }
}

/// How a status code is displayed: the number, a space, and its reason phrase or
/// `<unknown status code>`.
pub open spec fn spec_status_display(code: u16) -> Seq<char> {
    decimal(code as nat) + " "@ + match http_canonical_reason(code) {
        Some(r) => r,
        None => "<unknown status code>"@,
    }
}

/// Displays a status code as reqwest does.
pub fn status_display(code: u16) -> (s: String)
    requires
        100 <= code <= 999,
    ensures
        s@ == spec_status_display(code),
{
    let mut s = decimal_string(code as u64);
    s.append(" ");
    match canonical_reason(code) {
        Some(r) => s.append(r),
        None => s.append("<unknown status code>"),
    }
    s
}

/// Whether a status code means success (200 to 299).
pub open spec fn status_is_success(code: u16) -> bool {
    200 <= code < 300
}

/// The outcome of the token request: the response body on success, else
/// `Token error <status>: <body>`.
pub fn token_exchange_result(status: u16, body: String) -> (r: Result<String, String>)
    requires
        100 <= status <= 999,
    ensures
        status_is_success(status) ==> r == Ok::<String, String>(body),
        !status_is_success(status) ==> (r matches Err(e) && e@ == "Token error "@
            + spec_status_display(status) + ": "@ + body@),
{
    if 200 <= status && status < 300 {
        return Ok(body);
    }
    let mut e = String::from_str("Token error ");
    let shown = status_display(status);
    e.append(shown.as_str());
    e.append(": ");
    e.append(body.as_str());
    Err(e)
}


/* Percent decoding, as the urlencoding crate does it */

/// The value of an ASCII hexadecimal digit (either case).
pub open spec fn hex_value(b: u8) -> Option<int> {
    if 0x30 <= b <= 0x39 {
        Some(b - 0x30)
    } else if 0x41 <= b <= 0x46 {
        Some(b - 0x41 + 10)
    } else if 0x61 <= b <= 0x66 {
        Some(b - 0x61 + 10)
    } else {
        None
    }
}

/// Percent decoding of bytes: `%` followed by two hexadecimal digits stands for
/// the byte they spell; every other byte, a `%` that is not so followed included,
/// stands for itself. `+` is kept as it is.
pub open spec fn percent_decode_bytes(b: Seq<u8>) -> Seq<u8>
    decreases b.len(),
{
    if b.len() == 0 {
        seq![]
    } else if b[0] == 0x25 && b.len() >= 3 && hex_value(b[1]) is Some && hex_value(b[2]) is Some {
        seq![(hex_value(b[1]).unwrap() * 16 + hex_value(b[2]).unwrap()) as u8]
            + percent_decode_bytes(b.subrange(3, b.len() as int))
    } else {
        seq![b[0]] + percent_decode_bytes(b.drop_first())
    }
}

/// The percent decoding of a text, where the decoded bytes are valid UTF-8.
pub open spec fn spec_percent_decode(s: Seq<char>) -> Option<Seq<char>> {
    let bytes = percent_decode_bytes(encode_utf8(s));
    if valid_utf8(bytes) {
        Some(decode_utf8(bytes))
    } else {
        None
    }
}

/// Calls `urlencoding::decode`. Claimed, as its source shows: the UTF-8 bytes of
/// `s` are percent-decoded (see `percent_decode_bytes`) and the result is returned
/// where those bytes are valid UTF-8; otherwise it fails.
#[verifier::external_body]
fn percent_decode(s: &str) -> (r: Option<String>)
    ensures
        match r {
            Some(d) => spec_percent_decode(s@) == Some(d@),
            None => spec_percent_decode(s@) is None,
        },
{
    match urlencoding::decode(s) {
        Ok(d) => Some(d.into_owned()),
        Err(_) => None,
    }
}

/* The OAuth redirect */

/// Unicode white space, as `char::is_whitespace` knows it.
pub open spec fn is_white_space(c: char) -> bool {
    let u = c as u32;
    (0x09 <= u <= 0x0d) || u == 0x20 || u == 0x85 || u == 0xa0 || u == 0x1680 || (0x2000 <= u
        <= 0x200a) || u == 0x2028 || u == 0x2029 || u == 0x202f || u == 0x205f || u == 0x3000
}

/// `s` without leading white space.
pub open spec fn trim_start_ws(s: Seq<char>) -> Seq<char>
    decreases s.len(),
{
    if s.len() > 0 && is_white_space(s[0]) {
        trim_start_ws(s.drop_first())
    } else {
        s
    }
}

/// `s` without trailing white space.
pub open spec fn trim_end_ws(s: Seq<char>) -> Seq<char>
    decreases s.len(),
{
    if s.len() > 0 && is_white_space(s.last()) {
        trim_end_ws(s.drop_last())
    } else {
        s
    }
}

/// `s` without white space at either end.
pub open spec fn trim_ws(s: Seq<char>) -> Seq<char> {
    trim_end_ws(trim_start_ws(s))
}

/// The characters that end the code in a redirect request.
pub open spec fn is_code_end(c: char) -> bool {
    c == '&' || c == ' ' || c == '\r' || c == '\n'
}

/// The longest prefix of `s` holding no character that ends a code.
pub open spec fn code_token(s: Seq<char>) -> Seq<char>
    decreases s.len(),
{
    if s.len() == 0 || is_code_end(s[0]) {
        seq![]
    } else {
        seq![s[0]] + code_token(s.drop_first())
    }
}

/// The index of the first occurrence of `pat` in `s` at or after `from`.
pub open spec fn find_from(s: Seq<char>, pat: Seq<char>, from: int) -> Option<int>
    decreases s.len() + 1 - from,
{
    if from < 0 || from + pat.len() > s.len() {
        None
    } else if s.subrange(from, from + pat.len()) == pat {
        Some(from)
    } else {
        find_from(s, pat, from + 1)
    }
}

/// The code as it appears in the redirect request: what follows the first
/// `code=`, up to `&`, space or line end, trimmed; `None` where there is no
/// `code=` or nothing is left.
pub open spec fn spec_raw_auth_code(request: Seq<char>) -> Option<Seq<char>> {
    match find_from(request, "code="@, 0) {
        None => None,
        Some(p) => {
            let t = trim_ws(code_token(request.subrange(p + 5, request.len() as int)));
            if t.len() == 0 {
                None
            } else {
                Some(t)
            }
        },
    }
}

/// The authorization code carried by a redirect request: the raw code, percent-decoded.
pub open spec fn spec_auth_code(request: Seq<char>) -> Option<Seq<char>> {
    match spec_raw_auth_code(request) {
        None => None,
        Some(raw) => spec_percent_decode(raw),
    }
}

/// The error when a redirect request carries no usable code.
pub open spec fn missing_code_error() -> Seq<char> {
    "Code non trouvé dans la requête"@
}

/// Whether `pat` occurs in `s` at `at`.
fn occurs_at(s: &Vec<char>, pat: &Vec<char>, at: usize) -> (r: bool)
    requires
        at + pat@.len() <= s@.len(),
    ensures
        r == (s@.subrange(at as int, at + pat@.len()) == pat@),
{
    let n = pat.len();
    let slen = s.len();
    for k in 0..n
        invariant
            n == pat@.len(),
            slen == s@.len(),
            at + n <= s@.len(),
            forall|j: int| 0 <= j < k ==> s@[at + j] == pat@[j],
    {
        if s[at + k] != pat[k] {
            assert(s@.subrange(at as int, at + n)[k as int] != pat@[k as int]);
            return false;
        }
    }
    assert(s@.subrange(at as int, at + n) =~= pat@);
    true
}

/// The index of the first occurrence of `pat` in `s`.
fn find_seq(s: &Vec<char>, pat: &Vec<char>) -> (r: Option<usize>)
    ensures
        match r {
            Some(p) => find_from(s@, pat@, 0) == Some(p as int),
            None => find_from(s@, pat@, 0) is None,
        },
{
    if pat.len() > s.len() {
        return None;
    }
    let last = s.len() - pat.len();
    let mut i: usize = 0;
    loop
        invariant
            last + pat@.len() == s@.len(),
            i <= last,
            find_from(s@, pat@, 0) == find_from(s@, pat@, i as int),
        decreases last - i,
    {
        if occurs_at(s, pat, i) {
            return Some(i);
        }
        if i == last {
            assert(find_from(s@, pat@, i as int + 1) is None);
            return None;
        }
        i = i + 1;
    }
}

/// Whether `c` is Unicode white space.
pub fn white_space(c: char) -> (r: bool)
    ensures
        r == is_white_space(c),
{
    let u = c as u32;
    (0x09 <= u && u <= 0x0d) || u == 0x20 || u == 0x85 || u == 0xa0 || u == 0x1680 || (0x2000 <= u
        && u <= 0x200a) || u == 0x2028 || u == 0x2029 || u == 0x202f || u == 0x205f || u == 0x3000
}

/// Reads the authorization code out of the HTTP request that the browser sends
/// to the local redirect server, and percent-decodes it.
pub fn extract_auth_code(request: &str) -> (r: Result<String, String>)
    ensures
        match r {
            Ok(code) => spec_auth_code(request@) == Some(code@),
            Err(e) => spec_auth_code(request@) is None && e@ == missing_code_error(),
        },
{
    let chars = chars_of(request);
    let key = chars_of("code=");
    let p = match find_seq(&chars, &key) {
        Some(p) => p,
        None => return Err(String::from_str("Code non trouvé dans la requête")),
    };
    proof {
        reveal_strlit("code=");
        lemma_find_from_bounds(chars@, key@, 0);
        assert(key@.len() == 5);
    }
    let total = chars.len();
    assert(p + 5 <= total);
    let start = p + 5;
    // the end of the token
    let mut end = start;
    while end < chars.len() && !(chars[end] == '&' || chars[end] == ' ' || chars[end] == '\r'
        || chars[end] == '\n')
        invariant
            start <= end <= chars@.len(),
            code_token(chars@.subrange(start as int, chars@.len() as int)) == chars@.subrange(
                start as int,
                end as int,
            ) + code_token(chars@.subrange(end as int, chars@.len() as int)),
        decreases chars@.len() - end,
    {
        let ghost rest = chars@.subrange(end as int, chars@.len() as int);
        assert(rest.drop_first() =~= chars@.subrange(end + 1, chars@.len() as int));
        assert(chars@.subrange(start as int, end + 1) =~= chars@.subrange(start as int, end as int)
            + seq![chars@[end as int]]);
        end = end + 1;
    }
    assert(code_token(chars@.subrange(end as int, chars@.len() as int)) =~= Seq::<char>::empty());
    // trim white space at the start, then at the end
    let mut lo = start;
    while lo < end && white_space(chars[lo])
        invariant
            start <= lo <= end <= chars@.len(),
            trim_start_ws(chars@.subrange(start as int, end as int)) == trim_start_ws(
                chars@.subrange(lo as int, end as int),
            ),
        decreases end - lo,
    {
        assert(chars@.subrange(lo as int, end as int).drop_first() =~= chars@.subrange(
            lo + 1,
            end as int,
        ));
        lo = lo + 1;
    }
    assert(trim_start_ws(chars@.subrange(lo as int, end as int)) == chars@.subrange(lo as int, end as int));
    let mut hi = end;
    while hi > lo && white_space(chars[hi - 1])
        invariant
            start <= lo <= hi <= end <= chars@.len(),
            trim_end_ws(chars@.subrange(lo as int, end as int)) == trim_end_ws(
                chars@.subrange(lo as int, hi as int),
            ),
        decreases hi - lo,
    {
        assert(chars@.subrange(lo as int, hi as int).drop_last() =~= chars@.subrange(
            lo as int,
            hi - 1,
        ));
        hi = hi - 1;
    }
    assert(trim_end_ws(chars@.subrange(lo as int, hi as int)) == chars@.subrange(lo as int, hi as int));
    if hi == lo {
        return Err(String::from_str("Code non trouvé dans la requête"));
    }
    let raw = string_of_range(&chars, lo, hi);
    match percent_decode(raw.as_str()) {
        Some(code) => Ok(code),
        None => Err(String::from_str("Code non trouvé dans la requête")),
    }
}

/// A found occurrence lies within the text.
proof fn lemma_find_from_bounds(s: Seq<char>, pat: Seq<char>, from: int)
    requires
        0 <= from,
    ensures
        find_from(s, pat, from) matches Some(p) ==> from <= p && p + pat.len() <= s.len()
            && s.subrange(p, p + pat.len()) == pat,
    decreases s.len() + 1 - from,
{
    if from + pat.len() <= s.len() && s.subrange(from, from + pat.len()) != pat {
        lemma_find_from_bounds(s, pat, from + 1);
    }
}


/* The page shown in the browser after sign-in */

/// UTF-8 never takes more than four bytes per character.
pub proof fn lemma_utf8_len_bound(s: Seq<char>)
    ensures
        s.len() <= encode_utf8(s).len() <= 4 * s.len(),
    decreases s.len(),
{
    if s.len() > 0 {
        lemma_utf8_len_bound(s.drop_first());
    }
}

/// The length in bytes of the UTF-8 encoding of `s`.
pub fn utf8_len(s: &str) -> (n: usize)
    requires
        s@.len() <= usize::MAX / 4,
    ensures
        n == encode_utf8(s@).len(),
{
    proof {
        lemma_utf8_len_bound(s@);
    }
    s.len()
}

/// The HTML page answered to the browser once it has been redirected.
pub open spec fn spec_callback_page() -> Seq<char> {
    "<html><body style='font-family:sans-serif;text-align:center;padding:80px;'>\n            <h1 style='color:#107c10;'>✅ Connexion réussie !</h1>\n            <p>Vous pouvez fermer cet onglet et retourner sur Sodium Launcher.</p>\n            <script>window.close();</script>\n        </body></html>"@
}

/// The HTML page answered to the browser once it has been redirected.
pub fn callback_page() -> (page: &'static str)
    ensures
        page@ == spec_callback_page(),
        page@.len() <= 1000,
{
    proof {
        reveal_strlit("<html><body style='font-family:sans-serif;text-align:center;padding:80px;'>\n            <h1 style='color:#107c10;'>✅ Connexion réussie !</h1>\n            <p>Vous pouvez fermer cet onglet et retourner sur Sodium Launcher.</p>\n            <script>window.close();</script>\n        </body></html>");
    }
    "<html><body style='font-family:sans-serif;text-align:center;padding:80px;'>\n            <h1 style='color:#107c10;'>✅ Connexion réussie !</h1>\n            <p>Vous pouvez fermer cet onglet et retourner sur Sodium Launcher.</p>\n            <script>window.close();</script>\n        </body></html>"
}

/// The HTTP response sent to the browser: a 200 with the HTML page, its
/// `Content-Length` the page's length in bytes, and the connection closed.
pub open spec fn spec_callback_response(page: Seq<char>) -> Seq<char> {
    "HTTP/1.1 200 OK\r\nContent-Type: text/html; charset=UTF-8\r\nContent-Length: "@ + decimal(
        encode_utf8(page).len(),
    ) + "\r\nConnection: close\r\n\r\n"@ + page
}

/// Builds the HTTP response sent to the browser after sign-in.
pub fn callback_response() -> (r: String)
    ensures
        r@ == spec_callback_response(spec_callback_page()),
{
    let page = callback_page();
    let n = utf8_len(page);
    let mut r = String::from_str(
        "HTTP/1.1 200 OK\r\nContent-Type: text/html; charset=UTF-8\r\nContent-Length: ",
    );
    let len = decimal_string(n as u64);
    r.append(len.as_str());
    r.append("\r\nConnection: close\r\n\r\n");
    r.append(page);
    r
}


/* Laws */

/// No UTF-8 byte of a character other than `%` is the byte of `%`.
proof fn lemma_scalar_has_no_percent(c: char)
    requires
        c != '%',
    ensures
        forall|i: int|
            0 <= i < vstd::utf8::encode_scalar(c as u32).len() ==> #[trigger] vstd::utf8::encode_scalar(
                c as u32,
            )[i] != 0x25,
{
    let v = c as u32;
    assert(forall|y: u8| #[trigger] (0x80u8 | y) >= 0x80u8) by (bit_vector);
    assert(forall|y: u8| #[trigger] (0xC0u8 | y) >= 0x80u8) by (bit_vector);
    assert(forall|y: u8| #[trigger] (0xE0u8 | y) >= 0x80u8) by (bit_vector);
    assert(forall|y: u8| #[trigger] (0xF0u8 | y) >= 0x80u8) by (bit_vector);
    if vstd::utf8::has_width_1_encoding(v) {
        assert((v & 0x7F) as u8 == v) by (bit_vector)
            requires
                v <= 0x7F,
        ;
    }
}

/// The UTF-8 bytes of a text without `%` hold no `%` byte.
proof fn lemma_encoding_has_no_percent(s: Seq<char>)
    requires
        forall|i: int| 0 <= i < s.len() ==> s[i] != '%',
    ensures
        forall|i: int| 0 <= i < encode_utf8(s).len() ==> #[trigger] encode_utf8(s)[i] != 0x25,
    decreases s.len(),
{
    if s.len() > 0 {
        lemma_scalar_has_no_percent(s[0]);
        lemma_encoding_has_no_percent(s.drop_first());
        let head = vstd::utf8::encode_scalar(s[0] as u32);
        let tail = encode_utf8(s.drop_first());
        assert forall|i: int| 0 <= i < encode_utf8(s).len() implies #[trigger] encode_utf8(s)[i] != 0x25 by {
            if i < head.len() {
                assert(encode_utf8(s)[i] == head[i]);
            } else {
                assert(encode_utf8(s)[i] == tail[i - head.len()]);
            }
        }
    }
}

/// Percent decoding leaves bytes without `%` as they are.
proof fn lemma_decode_plain_bytes(b: Seq<u8>)
    requires
        forall|i: int| 0 <= i < b.len() ==> #[trigger] b[i] != 0x25,
    ensures
        percent_decode_bytes(b) == b,
    decreases b.len(),
{
    if b.len() > 0 {
        assert forall|i: int| 0 <= i < b.drop_first().len() implies #[trigger] b.drop_first()[i] != 0x25 by {
            assert(b.drop_first()[i] == b[i + 1]);
        }
        lemma_decode_plain_bytes(b.drop_first());
        assert(seq![b[0]] + b.drop_first() =~= b);
    }
}

/// A text without `%` decodes to itself.
pub proof fn law_percent_decode_plain(s: Seq<char>)
    requires
        forall|i: int| 0 <= i < s.len() ==> s[i] != '%',
    ensures
        spec_percent_decode(s) == Some(s),
{
    lemma_encoding_has_no_percent(s);
    lemma_decode_plain_bytes(encode_utf8(s));
    vstd::utf8::encode_utf8_valid_utf8(s);
    vstd::utf8::encode_utf8_decode_utf8(s);
}

/// The token read after `code=` stops at the first character that ends a code.
proof fn lemma_code_token_stops(code: Seq<char>, rest: Seq<char>)
    requires
        forall|i: int| 0 <= i < code.len() ==> !is_code_end(#[trigger] code[i]),
        rest.len() == 0 || is_code_end(rest[0]),
    ensures
        code_token(code + rest) == code,
    decreases code.len(),
{
    if code.len() == 0 {
        assert(code + rest =~= rest);
    } else {
        assert((code + rest).drop_first() =~= code.drop_first() + rest);
        assert forall|i: int| 0 <= i < code.drop_first().len() implies !is_code_end(
            #[trigger] code.drop_first()[i],
        ) by {
            assert(code.drop_first()[i] == code[i + 1]);
        }
        lemma_code_token_stops(code.drop_first(), rest);
        assert(seq![code[0]] + code.drop_first() =~= code);
    }
}

/// A redirect carrying a code without `%`, without white space at its ends and
/// ended by `&`, a space, a line end or the end of the request, yields that code.
pub proof fn law_plain_code_is_returned(request: Seq<char>, p: int, code: Seq<char>, rest: Seq<char>)
    requires
        find_from(request, "code="@, 0) == Some(p),
        request.subrange(p + 5, request.len() as int) == code + rest,
        code.len() > 0,
        forall|i: int| 0 <= i < code.len() ==> !is_code_end(#[trigger] code[i]) && code[i] != '%',
        !is_white_space(code[0]),
        !is_white_space(code.last()),
        rest.len() == 0 || is_code_end(rest[0]),
    ensures
        spec_auth_code(request) == Some(code),
{
    lemma_code_token_stops(code, rest);
    assert(trim_start_ws(code) == code);
    assert(trim_end_ws(code) == code);
    law_percent_decode_plain(code);
}

/// No form-encoded byte is `&` or `=`.
proof fn lemma_form_byte_no_separator(b: u8)
    ensures
        forall|i: int|
            0 <= i < form_byte(b).len() ==> #[trigger] form_byte(b)[i] != '&' && form_byte(b)[i]
                != '=',
{
}

/// Form encoding never yields `&` or `=`, so encoded names and values cannot
/// disturb the structure of a form body.
pub proof fn law_form_encoding_has_no_separators(s: Seq<char>)
    ensures
        forall|i: int|
            0 <= i < form_component(s).len() ==> #[trigger] form_component(s)[i] != '&'
                && form_component(s)[i] != '=',
{
    lemma_form_bytes_no_separator(encode_utf8(s));
}

proof fn lemma_form_bytes_no_separator(bs: Seq<u8>)
    ensures
        forall|i: int|
            0 <= i < form_bytes(bs).len() ==> #[trigger] form_bytes(bs)[i] != '&' && form_bytes(
                bs,
            )[i] != '=',
    decreases bs.len(),
{
    if bs.len() > 0 {
        lemma_form_byte_no_separator(bs[0]);
        lemma_form_bytes_no_separator(bs.drop_first());
        let head = form_byte(bs[0]);
        let tail = form_bytes(bs.drop_first());
        assert forall|i: int| 0 <= i < form_bytes(bs).len() implies #[trigger] form_bytes(bs)[i]
            != '&' && form_bytes(bs)[i] != '=' by {
            if i < head.len() {
                assert(form_bytes(bs)[i] == head[i]);
            } else {
                assert(form_bytes(bs)[i] == tail[i - head.len()]);
            }
        }
    }
}


/* Reading a form body back */

/// `s` with every `+` read as a space, as form decoding does before percent decoding.
pub open spec fn plus_to_space(s: Seq<char>) -> Seq<char> {
    s.map_values(|c: char| if c == '+' { ' ' } else { c })
}

/// The decoding of one form-encoded name or value: `+` is a space, then the UTF-8
/// bytes are percent-decoded; `None` where the result is not valid UTF-8.
pub open spec fn form_decode(s: Seq<char>) -> Option<Seq<char>> {
    let bytes = percent_decode_bytes(encode_utf8(plus_to_space(s)));
    if valid_utf8(bytes) {
        Some(decode_utf8(bytes))
    } else {
        None
    }
}

/// The pieces of `s` between the characters `c` (one piece more than there are `c`s).
pub open spec fn split_char(s: Seq<char>, c: char) -> Seq<Seq<char>>
    decreases s.len(),
{
    if s.len() == 0 {
        seq![Seq::<char>::empty()]
    } else if s.last() == c {
        split_char(s.drop_last(), c).push(Seq::<char>::empty())
    } else {
        let r = split_char(s.drop_last(), c);
        r.update(r.len() - 1, r.last().push(s.last()))
    }
}

/// One `name=value` piece of a form body, split at its first `=` (a piece without
/// `=` is a name with an empty value), each side decoded.
pub open spec fn form_parse_pair(piece: Seq<char>) -> Option<(Seq<char>, Seq<char>)> {
    let (name, value) = match crate::maven::find_char_from(piece, '=', 0) {
        Some(i) => (piece.subrange(0, i), piece.subrange(i + 1, piece.len() as int)),
        None => (piece, Seq::<char>::empty()),
    };
    match (form_decode(name), form_decode(value)) {
        (Some(n), Some(v)) => Some((n, v)),
        _ => None,
    }
}

/// The pairs of a list of pieces, empty pieces skipped.
pub open spec fn form_parse_pieces(pieces: Seq<Seq<char>>) -> Option<Seq<(Seq<char>, Seq<char>)>>
    decreases pieces.len(),
{
    if pieces.len() == 0 {
        Some(Seq::empty())
    } else {
        match form_parse_pieces(pieces.drop_last()) {
            None => None,
            Some(r) => if pieces.last().len() == 0 {
                Some(r)
            } else {
                match form_parse_pair(pieces.last()) {
                    Some(p) => Some(r.push(p)),
                    None => None,
                }
            },
        }
    }
}

/// The pairs of a form body, read as the `application/x-www-form-urlencoded`
/// parser reads it: split at `&`, empty pieces skipped, each piece split at its
/// first `=`, `+` read as a space, then percent-decoded; `None` where a decoded
/// name or value is not valid UTF-8.
pub open spec fn form_parse(body: Seq<char>) -> Option<Seq<(Seq<char>, Seq<char>)>> {
    form_parse_pieces(split_char(body, '&'))
}

/// The bytes of an ASCII text, one per character.
pub open spec fn ascii_bytes(s: Seq<char>) -> Seq<u8> {
    s.map_values(|c: char| c as u8)
}

proof fn lemma_form_byte_ascii(b: u8)
    ensures
        vstd::utf8::is_ascii_chars(form_byte(b)),
        vstd::utf8::is_ascii_chars(plus_to_space(form_byte(b))),
        percent_decode_bytes(ascii_bytes(plus_to_space(form_byte(b)))) == seq![b],
        forall|y: Seq<u8>|
            #[trigger] percent_decode_bytes(ascii_bytes(plus_to_space(form_byte(b))) + y) == seq![b]
                + percent_decode_bytes(y),
{
    let x = form_byte(b);
    let e = ascii_bytes(plus_to_space(x));
    if form_unchanged(b) {
        assert(e =~= seq![b]);
        assert forall|y: Seq<u8>| #[trigger] percent_decode_bytes(e + y) == seq![b] + percent_decode_bytes(y) by {
            assert((e + y)[0] == b);
            assert((e + y).drop_first() =~= y);
        }
        assert(percent_decode_bytes(e) == seq![b] + percent_decode_bytes(Seq::<u8>::empty()));
    } else if b == 0x20 {
        assert(e =~= seq![0x20u8]);
        assert forall|y: Seq<u8>| #[trigger] percent_decode_bytes(e + y) == seq![b] + percent_decode_bytes(y) by {
            assert((e + y)[0] == b);
            assert((e + y).drop_first() =~= y);
        }
        assert(percent_decode_bytes(e) == seq![b] + percent_decode_bytes(Seq::<u8>::empty()));
    } else {
        let hi = b as int / 16;
        let lo = b as int % 16;
        let h = upper_hex_digit(hi) as u8;
        let l = upper_hex_digit(lo) as u8;
        assert(e =~= seq![0x25u8, h, l]);
        assert(hex_value(h) == Some(hi));
        assert(hex_value(l) == Some(lo));
        assert((hi * 16 + lo) as u8 == b);
        assert forall|y: Seq<u8>| #[trigger] percent_decode_bytes(e + y) == seq![b] + percent_decode_bytes(y) by {
            assert((e + y)[0] == 0x25u8 && (e + y)[1] == h && (e + y)[2] == l);
            assert((e + y).subrange(3, (e + y).len() as int) =~= y);
        }
        assert(e + Seq::<u8>::empty() =~= e);
        assert(percent_decode_bytes(e) == seq![b] + percent_decode_bytes(Seq::<u8>::empty()));
    }
    assert(seq![b] + percent_decode_bytes(Seq::<u8>::empty()) =~= seq![b]);
}

/// Percent decoding, after reading `+` as a space, undoes form encoding byte for byte.
proof fn lemma_form_bytes_roundtrip(b: Seq<u8>)
    ensures
        vstd::utf8::is_ascii_chars(plus_to_space(form_bytes(b))),
        percent_decode_bytes(ascii_bytes(plus_to_space(form_bytes(b)))) == b,
    decreases b.len(),
{
    if b.len() > 0 {
        lemma_form_byte_ascii(b[0]);
        lemma_form_bytes_roundtrip(b.drop_first());
        let x = plus_to_space(form_byte(b[0]));
        let r = plus_to_space(form_bytes(b.drop_first()));
        assert(plus_to_space(form_bytes(b)) =~= x + r);
        assert(ascii_bytes(x + r) =~= ascii_bytes(x) + ascii_bytes(r));
        assert(percent_decode_bytes(ascii_bytes(x) + ascii_bytes(r)) == seq![b[0]]
            + percent_decode_bytes(ascii_bytes(r)));
        assert(seq![b[0]] + b.drop_first() =~= b);
        assert forall|i: int| 0 <= i < (x + r).len() implies '\0' <= #[trigger] (x + r)[i] <= '\u{7f}' by {
            if i < x.len() {
                assert((x + r)[i] == x[i]);
            } else {
                assert((x + r)[i] == r[i - x.len()]);
            }
        }
    } else {
        assert(ascii_bytes(plus_to_space(form_bytes(b))) =~= b);
    }
}

/// Form decoding gives back what form encoding encoded.
pub proof fn law_form_component_roundtrip(s: Seq<char>)
    ensures
        form_decode(form_component(s)) == Some(s),
{
    let c = plus_to_space(form_component(s));
    lemma_form_bytes_roundtrip(encode_utf8(s));
    vstd::utf8::is_ascii_chars_encode_utf8(c);
    assert(encode_utf8(c) =~= ascii_bytes(c));
    vstd::utf8::encode_utf8_valid_utf8(s);
    vstd::utf8::encode_utf8_decode_utf8(s);
}

/// A text without `c` is one piece.
proof fn lemma_split_without(p: Seq<char>, c: char)
    requires
        forall|i: int| 0 <= i < p.len() ==> p[i] != c,
    ensures
        split_char(p, c) == seq![p],
    decreases p.len(),
{
    if p.len() > 0 {
        lemma_split_without(p.drop_last(), c);
        assert(p.drop_last().push(p.last()) =~= p);
        assert(seq![p.drop_last()].update(0, p) =~= seq![p]);
    } else {
        assert(p =~= Seq::<char>::empty());
    }
}

/// Appending `c` and a text without `c` adds that text as the last piece.
proof fn lemma_split_append(a: Seq<char>, p: Seq<char>, c: char)
    requires
        forall|i: int| 0 <= i < p.len() ==> p[i] != c,
    ensures
        split_char(a + seq![c] + p, c) == split_char(a, c).push(p),
    decreases p.len(),
{
    if p.len() == 0 {
        assert(a + seq![c] + p =~= a.push(c));
        assert((a + seq![c] + p).drop_last() =~= a);
        assert(p =~= Seq::<char>::empty());
    } else {
        let q = p.drop_last();
        lemma_split_append(a, q, c);
        let whole = a + seq![c] + p;
        assert(whole.drop_last() =~= a + seq![c] + q);
        assert(whole.last() == p.last());
        let r = split_char(a, c).push(q);
        assert(r.update(r.len() - 1, q.push(p.last())) =~= split_char(a, c).push(p)) by {
            assert(q.push(p.last()) =~= p);
        }
    }
}

/// The first `c` of `a + [c] + b`, where `a` holds none, is at the end of `a`.
proof fn lemma_find_after(a: Seq<char>, b: Seq<char>, c: char, from: int)
    requires
        0 <= from <= a.len(),
        forall|i: int| 0 <= i < a.len() ==> a[i] != c,
    ensures
        crate::maven::find_char_from(a + seq![c] + b, c, from) == Some(a.len() as int),
    decreases a.len() - from,
{
    let s = a + seq![c] + b;
    if from < a.len() {
        assert(s[from] == a[from]);
        lemma_find_after(a, b, c, from + 1);
    } else {
        assert(s[from] == c);
    }
}

/// The encoded pairs of a list, as pieces.
pub open spec fn encoded_pairs(pairs: Seq<(Seq<char>, Seq<char>)>) -> Seq<Seq<char>> {
    pairs.map_values(|p: (Seq<char>, Seq<char>)| form_pair(p))
}

proof fn lemma_split_body(pairs: Seq<(Seq<char>, Seq<char>)>)
    requires
        pairs.len() > 0,
    ensures
        split_char(form_body(pairs), '&') == encoded_pairs(pairs),
    decreases pairs.len(),
{
    let pieces = encoded_pairs(pairs);
    let last = pieces.last();
    assert(last == form_pair(pairs.last()));
    law_form_encoding_has_no_separators(pairs.last().0);
    law_form_encoding_has_no_separators(pairs.last().1);
    let k = form_component(pairs.last().0);
    let v = form_component(pairs.last().1);
    assert forall|i: int| 0 <= i < last.len() implies last[i] != '&' by {
        if i < k.len() {
            assert(last[i] == k[i]);
        } else if i > k.len() {
            assert(last[i] == v[i - k.len() - 1]);
        }
    }
    if pairs.len() == 1 {
        assert(pieces =~= seq![last]);
        lemma_split_without(last, '&');
    } else {
        let shorter = pairs.drop_last();
        lemma_split_body(shorter);
        assert(encoded_pairs(shorter) =~= pieces.drop_last());
        assert(form_body(pairs) == form_body(shorter) + seq!['&'] + last);
        lemma_split_append(form_body(shorter), last, '&');
        assert(encoded_pairs(shorter).push(last) =~= pieces);
    }
}

proof fn lemma_parse_pair(p: (Seq<char>, Seq<char>))
    ensures
        form_pair(p).len() > 0,
        form_parse_pair(form_pair(p)) == Some(p),
{
    let k = form_component(p.0);
    let v = form_component(p.1);
    law_form_encoding_has_no_separators(p.0);
    assert forall|i: int| 0 <= i < k.len() implies k[i] != '=' by {}
    lemma_find_after(k, v, '=', 0);
    let piece = form_pair(p);
    assert(piece == k + seq!['='] + v);
    assert(piece.subrange(0, k.len() as int) =~= k);
    assert(piece.subrange(k.len() as int + 1, piece.len() as int) =~= v);
    law_form_component_roundtrip(p.0);
    law_form_component_roundtrip(p.1);
}

proof fn lemma_parse_pieces(pairs: Seq<(Seq<char>, Seq<char>)>)
    ensures
        form_parse_pieces(encoded_pairs(pairs)) == Some(pairs),
    decreases pairs.len(),
{
    if pairs.len() > 0 {
        let shorter = pairs.drop_last();
        lemma_parse_pieces(shorter);
        assert(encoded_pairs(pairs).drop_last() =~= encoded_pairs(shorter));
        lemma_parse_pair(pairs.last());
        assert(shorter.push(pairs.last()) =~= pairs);
    } else {
        assert(encoded_pairs(pairs) =~= Seq::<Seq<char>>::empty());
        assert(pairs =~= Seq::<(Seq<char>, Seq<char>)>::empty());
    }
}

/// Parsing a form body gives back exactly the pairs it encodes, in order, whatever
/// the names and values hold (`&`, `=`, `+`, `%`, spaces or any other character).
pub proof fn law_form_body_roundtrip(pairs: Seq<(Seq<char>, Seq<char>)>)
    ensures
        form_parse(form_body(pairs)) == Some(pairs),
{
    if pairs.len() == 0 {
        assert(form_body(pairs) =~= Seq::<char>::empty()) by {
            assert(pairs.map_values(|p: (Seq<char>, Seq<char>)| form_pair(p)).len() == 0);
        }
        assert(split_char(Seq::<char>::empty(), '&') =~= seq![Seq::<char>::empty()]);
        assert(form_parse_pieces(seq![Seq::<char>::empty()]) == form_parse_pieces(
            seq![Seq::<char>::empty()].drop_last(),
        ));
        assert(seq![Seq::<char>::empty()].drop_last() =~= Seq::<Seq<char>>::empty());
        assert(pairs =~= Seq::<(Seq<char>, Seq<char>)>::empty());
    } else {
        lemma_split_body(pairs);
        lemma_parse_pieces(pairs);
    }
}

/// The body of the token request reads back as its six pairs, in order.
pub proof fn law_token_request_roundtrip(
    code: Seq<char>,
    code_verifier: Seq<char>,
    client_id: Seq<char>,
    redirect_uri: Seq<char>,
)
    ensures
        form_parse(form_body(spec_token_request_pairs(code, code_verifier, client_id, redirect_uri)))
            == Some(spec_token_request_pairs(code, code_verifier, client_id, redirect_uri)),
{
    law_form_body_roundtrip(spec_token_request_pairs(code, code_verifier, client_id, redirect_uri));
}

} // verus!
