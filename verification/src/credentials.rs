//! The credential file: four lines holding the redirect port, the client ID,
//! the client secret and the access token, in that order.
use vstd::prelude::*;
use vstd::string::*;

use crate::text::{
    decimal, decimal_string, decimal_value, lemma_decimal_reads_back, lemma_digit_char,
    lemma_piece_after, lemma_piece_lacks_sep, lemma_piece_whole, lemma_trimmed, parse_decimal, piece, piece_of, trim, trim_end,
    trim_start, trimmed,
};

verus! {

/// What the credential file holds.
pub struct Credentials {
    pub redirect_port: u16,
    pub client_id: String,
    pub client_secret: String,
    pub access_token: String,
}

/// The credentials as plain values.
pub struct CredentialsView {
    pub redirect_port: u16,
    pub client_id: Seq<char>,
    pub client_secret: Seq<char>,
    pub access_token: Seq<char>,
}

impl View for Credentials {
    type V = CredentialsView;

    open spec fn view(&self) -> CredentialsView {
        CredentialsView {
            redirect_port: self.redirect_port,
            client_id: self.client_id@,
            client_secret: self.client_secret@,
            access_token: self.access_token@,
        }
    }
}

/// Why a credential file cannot be read.
#[derive(Debug, PartialEq, Eq, Structural)]
pub enum CredentialsError {
    /// The first line is not a port number.
    InvalidPort,
}

/// Line `k` (from 0) of a credential file as it is read: without its line
/// break and surrounding whitespace, and empty past the end of the file.
pub open spec fn credential_line(text: Seq<char>, k: nat) -> Seq<char> {
    trimmed(piece(text, '\n', k))
}

/// The credentials that the file text `text` holds, or `None` when its first
/// line is not a port number.
pub open spec fn read_credentials_spec(text: Seq<char>) -> Option<CredentialsView> {
    let port = decimal_value(credential_line(text, 0));
    if port is Some && port->0 <= u16::MAX {
        Some(
            CredentialsView {
                redirect_port: port->0 as u16,
                client_id: credential_line(text, 1),
                client_secret: credential_line(text, 2),
                access_token: credential_line(text, 3),
            },
        )
    } else {
        None
    }
}

/// The text of a credential file holding `c`: each field on a line of its
/// own, the port in decimal.
pub open spec fn written_credentials(c: CredentialsView) -> Seq<char> {
    decimal(c.redirect_port as nat) + seq!['\n'] + c.client_id + seq!['\n'] + c.client_secret
        + seq!['\n'] + c.access_token + seq!['\n']
}

/// A field that a credential file gives back as written: on one line, and
/// with no whitespace at either end.
pub open spec fn storable_field(f: Seq<char>) -> bool {
    &&& !f.contains('\n')
    &&& trimmed(f) == f
}

/// Reads the credentials out of the text of a credential file.
pub fn parse_credentials(text: &str) -> (r: Result<Credentials, CredentialsError>)
    ensures
        match r {
            Ok(c) => read_credentials_spec(text@) == Some(c@),
            Err(e) => e == CredentialsError::InvalidPort && read_credentials_spec(text@) is None,
        },
{
    let port = match parse_decimal(trim(piece_of(text, '\n', 0)), 65535) {
        Some(p) => p as u16,
        None => {
            return Err(CredentialsError::InvalidPort);
        },
    };
    let client_id = String::from_str(trim(piece_of(text, '\n', 1)));
    let client_secret = String::from_str(trim(piece_of(text, '\n', 2)));
    let access_token = String::from_str(trim(piece_of(text, '\n', 3)));
    Ok(Credentials { redirect_port: port, client_id, client_secret, access_token })
}

/// The text of a credential file that holds `c`.
pub fn format_credentials(c: &Credentials) -> (r: String)
    ensures
        r@ == written_credentials(c@),
{
    let mut r = decimal_string(c.redirect_port as u32);
    r.append("\n");
    r.append(c.client_id.as_str());
    r.append("\n");
    r.append(c.client_secret.as_str());
    r.append("\n");
    r.append(c.access_token.as_str());
    r.append("\n");
    proof {
        reveal_strlit("\n");
    }
    r
}

/// `c` with its access token removed, as logging out leaves it.
pub fn without_access_token(c: Credentials) -> (r: Credentials)
    ensures
        r@ == (CredentialsView { access_token: Seq::empty(), ..c@ }),
{
    let r = Credentials { access_token: String::new(), ..c };
    r
}

/// `c` with `token` as its access token.
pub fn with_access_token(c: Credentials, token: String) -> (r: Credentials)
    ensures
        r@ == (CredentialsView { access_token: token@, ..c@ }),
{
    Credentials { access_token: token, ..c }
}

/// Whether `c` holds an access token.
pub fn has_access_token(c: &Credentials) -> (r: bool)
    ensures
        r == (c.access_token@.len() > 0),
{
    !c.access_token.as_str().is_empty()
}

proof fn lemma_line_pieces(a: Seq<char>, rest: Seq<char>, k: nat)
    requires
        !a.contains('\n'),
    ensures
        piece(a + seq!['\n'] + rest, '\n', 0) == a,
        piece(a + seq!['\n'] + rest, '\n', k + 1) == piece(rest, '\n', k),
{
    lemma_piece_after(a, '\n', rest, k);
}

proof fn lemma_decimal_trimmed(n: nat)
    ensures
        trimmed(decimal(n)) == decimal(n),
        !decimal(n).contains('\n'),
{
    lemma_decimal_reads_back(n);
    let d = decimal(n);
    lemma_digit_char(crate::text::digit_value(d[0]));
    lemma_digit_char(crate::text::digit_value(d.last()));
    assert(trim_start(d) == d);
    assert(trim_end(d) == d);
    if d.contains('\n') {
        let i = choose|i: int| 0 <= i < d.len() && d[i] == '\n';
        assert(crate::text::is_digit(d[i]));
    }
}

/// What is written to a credential file is read back from it: reading the
/// text that `format_credentials` gives for `c` yields `c`, when its text
/// fields are each on one line and carry no whitespace at either end.
pub proof fn lemma_written_credentials_read_back(c: CredentialsView)
    requires
        storable_field(c.client_id),
        storable_field(c.client_secret),
        storable_field(c.access_token),
    ensures
        read_credentials_spec(written_credentials(c)) == Some(c),
{
    let nl = seq!['\n'];
    let port = decimal(c.redirect_port as nat);
    let t3 = c.access_token + nl;
    let t2 = c.client_secret + nl + t3;
    let t1 = c.client_id + nl + t2;
    let t0 = port + nl + t1;
    assert(written_credentials(c) =~= t0);
    lemma_decimal_trimmed(c.redirect_port as nat);
    lemma_decimal_reads_back(c.redirect_port as nat);
    lemma_line_pieces(port, t1, 0);
    lemma_line_pieces(port, t1, 1);
    lemma_line_pieces(port, t1, 2);
    lemma_line_pieces(c.client_id, t2, 0);
    lemma_line_pieces(c.client_id, t2, 1);
    lemma_line_pieces(c.client_secret, t3, 0);
    assert(t3 =~= c.access_token + nl + Seq::<char>::empty());
    lemma_line_pieces(c.access_token, Seq::<char>::empty(), 0);
    assert(piece(t0, '\n', 3) == piece(t2, '\n', 1));
}

/// Logging out keeps everything but the access token: the file written
/// for `without_access_token(c)` reads back as `c` with an empty token.
pub proof fn lemma_logout_read_back(c: CredentialsView)
    requires
        storable_field(c.client_id),
        storable_field(c.client_secret),
    ensures
        read_credentials_spec(written_credentials(CredentialsView { access_token: Seq::empty(), ..c }))
            == Some(CredentialsView { access_token: Seq::empty(), ..c }),
{
    let e = Seq::<char>::empty();
    assert(!e.contains('\n'));
    assert(trim_start(e) == e);
    assert(trim_end(e) == e);
    lemma_written_credentials_read_back(CredentialsView { access_token: e, ..c });
}

/// A login stores the token it receives: the file written for
/// `with_access_token(c, token)` reads back as `c` with that token.
pub proof fn lemma_token_update_read_back(c: CredentialsView, token: Seq<char>)
    requires
        storable_field(c.client_id),
        storable_field(c.client_secret),
        storable_field(token),
    ensures
        read_credentials_spec(written_credentials(CredentialsView { access_token: token, ..c }))
            == Some(CredentialsView { access_token: token, ..c }),
{
    lemma_written_credentials_read_back(CredentialsView { access_token: token, ..c });
}

/// Every line read from a credential file is a storable field.
pub proof fn lemma_read_fields_storable(text: Seq<char>, k: nat)
    ensures
        storable_field(credential_line(text, k)),
{
    lemma_piece_lacks_sep(text, '\n', k);
    lemma_trimmed(piece(text, '\n', k), '\n');
}

/// Writing back what was read from a credential file changes nothing that
/// is read: the file that `format_credentials` writes for the credentials
/// read from `text` reads as they do.
pub proof fn lemma_rewrite_read_back(text: Seq<char>)
    requires
        read_credentials_spec(text) is Some,
    ensures
        read_credentials_spec(written_credentials(read_credentials_spec(text)->0))
            == read_credentials_spec(text),
{
    lemma_read_fields_storable(text, 1);
    lemma_read_fields_storable(text, 2);
    lemma_read_fields_storable(text, 3);
    lemma_written_credentials_read_back(read_credentials_spec(text)->0);
}

/// Logging out of any credential file that can be read keeps all but the
/// token: the file written for the credentials read from `text`, less
/// their token, reads back as exactly that.
pub proof fn lemma_logout_of_read_file(text: Seq<char>)
    requires
        read_credentials_spec(text) is Some,
    ensures
        ({
            let out = CredentialsView {
                access_token: Seq::empty(),
                ..read_credentials_spec(text)->0
            };
            read_credentials_spec(written_credentials(out)) == Some(out)
        }),
{
    lemma_read_fields_storable(text, 1);
    lemma_read_fields_storable(text, 2);
    lemma_logout_read_back(read_credentials_spec(text)->0);
}

/// A credential file is read line by line, whether or not its last line
/// ends in a line break: for the lines `l0` to `l3`, followed by nothing or
/// by a further line break, the port is read from `l0`, and the client ID,
/// the client secret and the access token are `l1`, `l2` and `l3` trimmed.
pub proof fn lemma_credential_file_lines(
    l0: Seq<char>,
    l1: Seq<char>,
    l2: Seq<char>,
    l3: Seq<char>,
    tail: Seq<char>,
)
    requires
        !l0.contains('\n'),
        !l1.contains('\n'),
        !l2.contains('\n'),
        !l3.contains('\n'),
        tail.len() == 0 || tail[0] == '\n',
    ensures
        ({
            let t = l0 + seq!['\n'] + l1 + seq!['\n'] + l2 + seq!['\n'] + l3 + tail;
            let port = decimal_value(trimmed(l0));
            &&& read_credentials_spec(t) is Some <==> (port is Some && port->0 <= u16::MAX)
            &&& read_credentials_spec(t) matches Some(c) ==> {
                &&& c.redirect_port == port->0
                &&& c.client_id == trimmed(l1)
                &&& c.client_secret == trimmed(l2)
                &&& c.access_token == trimmed(l3)
            }
        }),
{
    let nl = seq!['\n'];
    let r3 = l3 + tail;
    let r2 = l2 + nl + r3;
    let r1 = l1 + nl + r2;
    let t = l0 + nl + l1 + nl + l2 + nl + l3 + tail;
    assert(t =~= l0 + nl + r1);
    lemma_line_pieces(l0, r1, 0);
    lemma_line_pieces(l0, r1, 1);
    lemma_line_pieces(l0, r1, 2);
    lemma_line_pieces(l1, r2, 0);
    lemma_line_pieces(l1, r2, 1);
    lemma_line_pieces(l2, r3, 0);
    if tail.len() == 0 {
        assert(r3 =~= l3);
        lemma_piece_whole(l3, '\n');
    } else {
        assert(r3 =~= l3 + nl + tail.drop_first());
        lemma_line_pieces(l3, tail.drop_first(), 0);
    }
    assert(piece(t, '\n', 0) == l0);
    assert(piece(t, '\n', 1) == l1);
    assert(piece(t, '\n', 2) == l2);
    assert(piece(t, '\n', 3) == l3);
    assert(credential_line(t, 0) == trimmed(l0));
    assert(credential_line(t, 1) == trimmed(l1));
    assert(credential_line(t, 2) == trimmed(l2));
    assert(credential_line(t, 3) == trimmed(l3));
    let d = crate::text::unsigned_digits(trimmed(l0));
    if d.len() > 0 && crate::text::all_digits(d) {
        crate::text::lemma_digits_prefix(d, 0);
    }
}

} // verus!
