//! The OAuth exchange: the login decision, the authorization and token
//! URLs, and what is read out of the redirect query and the token reply.
use vstd::prelude::*;
use vstd::string::*;

use crate::credentials::{Credentials, CredentialsView};
use crate::text::{
    decimal, decimal_string, decimal_value, find_sep, lemma_concat_lacks, lemma_decimal_lacks,
    lemma_decimal_reads_back, lemma_piece_after, lemma_piece_whole, lemma_seg_len, piece, piece_of,
    seg_len,
};

verus! {

/// The redirect URI that the local server listens on.
pub open spec fn redirect_uri(port: u16) -> Seq<char> {
    "http://localhost:"@ + decimal(port as nat)
}

/// The page where the user grants this client access.
pub open spec fn authorize_url_spec(c: CredentialsView) -> Seq<char> {
    "https://www.tistory.com/oauth/authorize?response_type=code&client_id="@ + c.client_id
        + "&redirect_uri="@ + redirect_uri(c.redirect_port)
}

/// The request that trades the authorization code `code` for a token.
pub open spec fn access_token_url_spec(code: Seq<char>, c: CredentialsView) -> Seq<char> {
    "https://www.tistory.com/oauth/access_token?code="@ + code + "&client_id="@ + c.client_id
        + "&client_secret="@ + c.client_secret + "&redirect_uri="@ + redirect_uri(c.redirect_port)
        + "&grant_type=authorization_code"@
}

/// The redirect URI that the local server listens on.
pub fn redirect_uri_of(port: u16) -> (r: String)
    ensures
        r@ == redirect_uri(port),
{
    let mut r = String::from_str("http://localhost:");
    let digits = decimal_string(port as u32);
    r.append(digits.as_str());
    r
}

/// The page where the user grants this client access.
pub fn authorize_url(c: &Credentials) -> (r: String)
    ensures
        r@ == authorize_url_spec(c@),
{
    let mut r = String::from_str(
        "https://www.tistory.com/oauth/authorize?response_type=code&client_id=",
    );
    r.append(c.client_id.as_str());
    r.append("&redirect_uri=");
    let uri = redirect_uri_of(c.redirect_port);
    r.append(uri.as_str());
    r
}

/// The request that trades the authorization code `code` for a token.
pub fn access_token_url(code: &str, c: &Credentials) -> (r: String)
    ensures
        r@ == access_token_url_spec(code@, c@),
{
    let mut r = String::from_str("https://www.tistory.com/oauth/access_token?code=");
    r.append(code);
    r.append("&client_id=");
    r.append(c.client_id.as_str());
    r.append("&client_secret=");
    r.append(c.client_secret.as_str());
    r.append("&redirect_uri=");
    let uri = redirect_uri_of(c.redirect_port);
    r.append(uri.as_str());
    r.append("&grant_type=authorization_code");
    r
}

/// Why a login cannot start.
#[derive(Debug, PartialEq, Eq, Structural)]
pub enum LoginError {
    /// The credential file holds no client ID.
    NoClientId,
    /// The credential file holds no client secret.
    NoClientSecret,
}

/// What a login has to do.
pub enum LoginPlan {
    /// An access token is at hand already.
    Authorized,
    /// The user has to grant access at `url`; the local server then
    /// receives the authorization code.
    Authorize { url: String },
}

/// Decides what a login does with the credentials `c`: the client ID is
/// checked first, then the client secret, then whether a token is at hand.
pub fn plan_login(c: &Credentials) -> (r: Result<LoginPlan, LoginError>)
    ensures
        c.client_id@.len() == 0 <==> r == Err::<LoginPlan, LoginError>(LoginError::NoClientId),
        c.client_id@.len() > 0 && c.client_secret@.len() == 0 <==> r == Err::<
            LoginPlan,
            LoginError,
        >(LoginError::NoClientSecret),
        r matches Ok(LoginPlan::Authorized) <==> (c.client_id@.len() > 0
            && c.client_secret@.len() > 0 && c.access_token@.len() > 0),
        r matches Ok(LoginPlan::Authorize { url }) <==> (c.client_id@.len() > 0
            && c.client_secret@.len() > 0 && c.access_token@.len() == 0),
        r matches Ok(LoginPlan::Authorize { url }) ==> url@ == authorize_url_spec(c@),
{
    if c.client_id.as_str().is_empty() {
        return Err(LoginError::NoClientId);
    }
    if c.client_secret.as_str().is_empty() {
        return Err(LoginError::NoClientSecret);
    }
    if c.access_token.as_str().is_empty() {
        Ok(LoginPlan::Authorize { url: authorize_url(c) })
    } else {
        Ok(LoginPlan::Authorized)
    }
}

/// Whether `p` starts with `code`.
pub open spec fn starts_with_code(p: Seq<char>) -> bool {
    p.len() >= 4 && p[0] == 'c' && p[1] == 'o' && p[2] == 'd' && p[3] == 'e'
}

/// The first `&`-separated field of the query `q` that starts with `code`.
pub open spec fn code_field(q: Seq<char>) -> Option<Seq<char>>
    decreases q.len(),
{
    let n = seg_len(q, '&');
    if starts_with_code(q.take(n as int)) {
        Some(q.take(n as int))
    } else if n >= q.len() {
        None
    } else {
        code_field(q.skip((n + 1) as int))
    }
}

/// Why no authorization code can be read from a redirect query.
#[derive(Debug, PartialEq, Eq, Structural)]
pub enum AuthCodeError {
    /// No field of the query starts with `code`.
    NoCode,
    /// The first field that starts with `code` has no `=`.
    NoValue,
}

/// The authorization code in the query `q`: the text after the first `=`
/// (up to a second one) of the first field that starts with `code`.
pub open spec fn auth_code_spec(q: Seq<char>) -> Result<Seq<char>, AuthCodeError> {
    match code_field(q) {
        None => Err(AuthCodeError::NoCode),
        Some(f) => if seg_len(f, '=') >= f.len() {
            Err(AuthCodeError::NoValue)
        } else {
            Ok(piece(f, '=', 1))
        },
    }
}

/// Whether `s` contains `c`.
fn holds_char(s: &str, c: char) -> (r: bool)
    ensures
        r == (seg_len(s@, c) < s@.len()),
{
    let n = s.unicode_len();
    assert(s@.skip(0) =~= s@);
    find_sep(s, n, c, 0) < n
}

/// Reads the authorization code out of the query of the redirect request.
pub fn auth_code_from_query(query: &str) -> (r: Result<String, AuthCodeError>)
    ensures
        match (r, auth_code_spec(query@)) {
            (Ok(code), Ok(expected)) => code@ == expected,
            (Err(e), Err(expected)) => e == expected,
            _ => false,
        },
{
    let n = query.unicode_len();
    let mut p: usize = 0;
    assert(query@.skip(0) =~= query@);
    loop
        invariant
            n == query@.len(),
            p <= n,
            code_field(query@) == code_field(query@.skip(p as int)),
        decreases n - p,
    {
        let e = find_sep(query, n, '&', p);
        proof {
            lemma_seg_len(query@.skip(p as int), '&');
        }
        assert(query@.skip(p as int).take(e - p) =~= query@.subrange(p as int, e as int));
        let is_code = e - p >= 4 && query.get_char(p) == 'c' && query.get_char(p + 1) == 'o'
            && query.get_char(p + 2) == 'd' && query.get_char(p + 3) == 'e';
        if is_code {
            let field = query.substring_char(p, e);
            if holds_char(field, '=') {
                return Ok(String::from_str(piece_of(field, '=', 1)));
            } else {
                return Err(AuthCodeError::NoValue);
            }
        }
        if e == n {
            return Err(AuthCodeError::NoCode);
        }
        assert(query@.skip(p as int).skip(e - p + 1) =~= query@.skip(e + 1));
        p = e + 1;
    }
}

/// Reads the access token out of the reply to the token request: the text
/// after its first `=`, up to a second one; `None` when it has no `=`.
pub fn access_token_from_reply(reply: &str) -> (r: Option<String>)
    ensures
        r is Some <==> seg_len(reply@, '=') < reply@.len(),
        r matches Some(t) ==> t@ == piece(reply@, '=', 1),
{
    if holds_char(reply, '=') {
        Some(String::from_str(piece_of(reply, '=', 1)))
    } else {
        None
    }
}

/// The redirect field of the OAuth URLs: `redirect_uri=http://localhost:`
/// and the port, which reads back as `port`; it holds no `&`.
proof fn lemma_redirect_field(port: u16)
    ensures
        ("redirect_uri=http://localhost:"@ + decimal(port as nat)).take(30)
            == "redirect_uri=http://localhost:"@,
        decimal_value(("redirect_uri=http://localhost:"@ + decimal(port as nat)).skip(30)) == Some(
            port as int,
        ),
        !("redirect_uri=http://localhost:"@ + decimal(port as nat)).contains('&'),
        "&redirect_uri="@ + redirect_uri(port) == seq!['&'] + ("redirect_uri=http://localhost:"@
            + decimal(port as nat)),
{
    reveal_strlit("redirect_uri=http://localhost:");
    reveal_strlit("&redirect_uri=");
    reveal_strlit("http://localhost:");
    let r = "redirect_uri=http://localhost:"@;
    let d = decimal(port as nat);
    assert((r + d).take(30) =~= r);
    assert((r + d).skip(30) =~= d);
    lemma_decimal_reads_back(port as nat);
    lemma_decimal_lacks(port as nat, '&');
    assert(!r.contains('&'));
    lemma_concat_lacks(r, d, '&');
    assert("&redirect_uri="@ + ("http://localhost:"@ + d) =~= seq!['&'] + (r + d));
}

/// The authorization page names the client's own ID and redirects to the
/// local server on the credentials' own port: split at `&`, the URL is the
/// authorization page asking for a code, `client_id=` with the client ID,
/// and `redirect_uri=http://localhost:` with a port that reads back as
/// `c.redirect_port`, and nothing more.
pub proof fn lemma_authorize_url_fields(c: CredentialsView)
    requires
        !c.client_id.contains('&'),
    ensures
        piece(authorize_url_spec(c), '&', 0)
            == "https://www.tistory.com/oauth/authorize?response_type=code"@,
        piece(authorize_url_spec(c), '&', 1) == "client_id="@ + c.client_id,
        piece(authorize_url_spec(c), '&', 2).take(30) == "redirect_uri=http://localhost:"@,
        decimal_value(piece(authorize_url_spec(c), '&', 2).skip(30)) == Some(
            c.redirect_port as int,
        ),
        seg_len(piece(authorize_url_spec(c), '&', 2), '&') == piece(authorize_url_spec(c), '&', 2).len(),
        piece(authorize_url_spec(c), '&', 3).len() == 0,
{
    reveal_strlit("https://www.tistory.com/oauth/authorize?response_type=code&client_id=");
    reveal_strlit("https://www.tistory.com/oauth/authorize?response_type=code");
    reveal_strlit("client_id=");
    let a = "https://www.tistory.com/oauth/authorize?response_type=code"@;
    let b = "client_id="@;
    let f2 = "redirect_uri=http://localhost:"@ + decimal(c.redirect_port as nat);
    lemma_redirect_field(c.redirect_port);
    assert(!a.contains('&'));
    assert(!b.contains('&'));
    lemma_concat_lacks(b, c.client_id, '&');
    let url = authorize_url_spec(c);
    let l1 = "https://www.tistory.com/oauth/authorize?response_type=code&client_id="@;
    assert(l1 =~= a + seq!['&'] + b);
    assert(url =~= (l1 + c.client_id) + ("&redirect_uri="@ + redirect_uri(c.redirect_port)));
    assert(url =~= (l1 + c.client_id) + (seq!['&'] + f2));
    assert(url =~= a + seq!['&'] + ((b + c.client_id) + seq!['&'] + f2));
    lemma_piece_after(a, '&', (b + c.client_id) + seq!['&'] + f2, 0);
    lemma_piece_after(a, '&', (b + c.client_id) + seq!['&'] + f2, 1);
    lemma_piece_after(a, '&', (b + c.client_id) + seq!['&'] + f2, 2);
    lemma_piece_after(b + c.client_id, '&', f2, 0);
    lemma_piece_after(b + c.client_id, '&', f2, 1);
    lemma_piece_whole(f2, '&');
    assert(piece(f2, '&', 1).len() == 0);
}

/// The token request carries the code it is given, the client's own ID and
/// secret, and the same redirect as the authorization page: split at `&`,
/// its fields are the token endpoint with `code=` and the code,
/// `client_id=` with the ID, `client_secret=` with the secret,
/// `redirect_uri=http://localhost:` with a port that reads back as
/// `c.redirect_port`, and `grant_type=authorization_code`.
pub proof fn lemma_access_token_url_fields(code: Seq<char>, c: CredentialsView)
    requires
        !code.contains('&'),
        !c.client_id.contains('&'),
        !c.client_secret.contains('&'),
    ensures
        piece(access_token_url_spec(code, c), '&', 0)
            == "https://www.tistory.com/oauth/access_token?code="@ + code,
        piece(access_token_url_spec(code, c), '&', 1) == "client_id="@ + c.client_id,
        piece(access_token_url_spec(code, c), '&', 2) == "client_secret="@ + c.client_secret,
        piece(access_token_url_spec(code, c), '&', 3).take(30) == "redirect_uri=http://localhost:"@,
        decimal_value(piece(access_token_url_spec(code, c), '&', 3).skip(30)) == Some(
            c.redirect_port as int,
        ),
        piece(access_token_url_spec(code, c), '&', 4) == "grant_type=authorization_code"@,
        piece(access_token_url_spec(code, c), '&', 5).len() == 0,
{
    reveal_strlit("https://www.tistory.com/oauth/access_token?code=");
    reveal_strlit("&client_id=");
    reveal_strlit("client_id=");
    reveal_strlit("&client_secret=");
    reveal_strlit("client_secret=");
    reveal_strlit("&grant_type=authorization_code");
    reveal_strlit("grant_type=authorization_code");
    let p0 = "https://www.tistory.com/oauth/access_token?code="@ + code;
    let p1 = "client_id="@ + c.client_id;
    let p2 = "client_secret="@ + c.client_secret;
    let p3 = "redirect_uri=http://localhost:"@ + decimal(c.redirect_port as nat);
    let p4 = "grant_type=authorization_code"@;
    lemma_redirect_field(c.redirect_port);
    assert(!"https://www.tistory.com/oauth/access_token?code="@.contains('&'));
    assert(!"client_id="@.contains('&'));
    assert(!"client_secret="@.contains('&'));
    assert(!p4.contains('&'));
    lemma_concat_lacks("https://www.tistory.com/oauth/access_token?code="@, code, '&');
    lemma_concat_lacks("client_id="@, c.client_id, '&');
    lemma_concat_lacks("client_secret="@, c.client_secret, '&');
    let amp = seq!['&'];
    let r4 = p4;
    let r3 = p3 + amp + r4;
    let r2 = p2 + amp + r3;
    let r1 = p1 + amp + r2;
    let url = access_token_url_spec(code, c);
    assert("&grant_type=authorization_code"@ =~= amp + p4);
    assert("&client_secret="@ =~= amp + "client_secret="@);
    assert("&client_id="@ =~= amp + "client_id="@);
    let tail = ("&redirect_uri="@ + redirect_uri(c.redirect_port)) + "&grant_type=authorization_code"@;
    assert(url =~= p0 + "&client_id="@ + c.client_id + "&client_secret="@ + c.client_secret + tail);
    assert(tail =~= amp + r3);
    assert(url =~= p0 + amp + r1);
    lemma_piece_after(p0, '&', r1, 0);
    lemma_piece_after(p0, '&', r1, 1);
    lemma_piece_after(p0, '&', r1, 2);
    lemma_piece_after(p0, '&', r1, 3);
    lemma_piece_after(p0, '&', r1, 4);
    lemma_piece_after(p1, '&', r2, 0);
    lemma_piece_after(p1, '&', r2, 1);
    lemma_piece_after(p1, '&', r2, 2);
    lemma_piece_after(p1, '&', r2, 3);
    lemma_piece_after(p2, '&', r3, 0);
    lemma_piece_after(p2, '&', r3, 1);
    lemma_piece_after(p2, '&', r3, 2);
    lemma_piece_after(p3, '&', r4, 0);
    lemma_piece_after(p3, '&', r4, 1);
    lemma_piece_whole(p4, '&');
    assert(piece(p4, '&', 1).len() == 0);
}

/// The token is the value of the reply's first `key=value` pair: for a
/// reply `k=v`, followed by nothing or by a further `=`, with no `=` in `k`
/// or `v`, the token read is `v`.
pub proof fn lemma_token_of_reply(k: Seq<char>, v: Seq<char>, tail: Seq<char>)
    requires
        !k.contains('='),
        !v.contains('='),
        tail.len() == 0 || tail[0] == '=',
    ensures
        seg_len(k + seq!['='] + v + tail, '=') < (k + seq!['='] + v + tail).len(),
        piece(k + seq!['='] + v + tail, '=', 1) == v,
{
    lemma_piece_after(k, '=', v + tail, 0);
    lemma_piece_after(k, '=', v + tail, 1);
    lemma_piece_whole(k, '=');
    crate::text::lemma_seg_len_concat(k, seq!['='] + v + tail, '=');
    assert(k + seq!['='] + v + tail =~= k + (seq!['='] + v + tail));
    assert((seq!['='] + v + tail)[0] == '=');
    assert(k + seq!['='] + v + tail =~= k + seq!['='] + (v + tail));
    if tail.len() == 0 {
        assert(v + tail =~= v);
        lemma_piece_whole(v, '=');
    } else {
        assert(v + tail =~= v + seq!['='] + tail.drop_first());
        lemma_piece_after(v, '=', tail.drop_first(), 0);
    }
}

/// The authorization code is read from the first field of the query that
/// starts with `code`: a query `code=v`, followed by nothing or by further
/// `&`-separated fields, with no `&` or `=` in `v`, gives the code `v`; a
/// field in front that does not start with `code` is passed over; and a
/// query of one field that does not start with `code` gives no code.
pub proof fn lemma_auth_code_of_query(f: Seq<char>, v: Seq<char>, tail: Seq<char>, q: Seq<char>)
    requires
        !v.contains('&'),
        !v.contains('='),
        tail.len() == 0 || tail[0] == '&',
        !f.contains('&'),
        !(f.len() >= 4 && f.take(4) == "code"@),
    ensures
        auth_code_spec("code="@ + v + tail) == Ok::<Seq<char>, AuthCodeError>(v),
        auth_code_spec(f + seq!['&'] + q) == auth_code_spec(q),
        auth_code_spec(f) == Err::<Seq<char>, AuthCodeError>(AuthCodeError::NoCode),
{
    reveal_strlit("code=");
    reveal_strlit("code");
    let c = "code="@;
    assert(!c.contains('&'));
    lemma_concat_lacks(c, v, '&');
    let field = c + v;
    let query = c + v + tail;
    lemma_piece_whole(field, '&');
    crate::text::lemma_seg_len_concat(field, tail, '&');
    if tail.len() > 0 {
        lemma_seg_len(tail, '&');
    }
    assert(query.take(field.len() as int) =~= field);
    assert(starts_with_code(field));
    assert(code_field(query) == Some(field));
    lemma_token_of_reply("code"@, v, Seq::<char>::empty());
    assert(c =~= "code"@ + seq!['=']);
    assert(field + Seq::<char>::empty() =~= field);
    assert("code"@ + seq!['='] + v + Seq::<char>::empty() =~= field);
    assert(!starts_with_code(f)) by {
        if starts_with_code(f) {
            assert(f.take(4) =~= "code"@);
        }
    }
    lemma_piece_after(f, '&', q, 0);
    lemma_piece_whole(f, '&');
    crate::text::lemma_seg_len_concat(f, seq!['&'] + q, '&');
    assert(f + seq!['&'] + q =~= f + (seq!['&'] + q));
    assert((seq!['&'] + q)[0] == '&');
    assert((f + seq!['&'] + q).take(f.len() as int) =~= f);
    assert((f + seq!['&'] + q).skip((f.len() + 1) as int) =~= q);
    assert(f.take(f.len() as int) =~= f);
}

} // verus!
