//! A post file: its title line, a blank line, and its Markdown body, which
//! is rendered to HTML; the post's slogan is the file's name without its
//! extension.
use vstd::prelude::*;
use vstd::string::*;

use crate::text::{find_sep, lemma_seg_len, piece, seg_len, trim, trimmed};

verus! {

/// The last component of the path `s` (split at `/`) that is neither empty
/// nor `.`, or `last` when there is none.
pub open spec fn last_component(s: Seq<char>, last: Option<Seq<char>>) -> Option<Seq<char>>
    decreases s.len(),
{
    let n = seg_len(s, '/');
    let c = s.take(n as int);
    let kept = if c.len() == 0 || c == seq!['.'] {
        last
    } else {
        Some(c)
    };
    if n >= s.len() {
        kept
    } else {
        last_component(s.skip((n + 1) as int), kept)
    }
}

/// The final component of a Unix path when it names a file or directory,
/// as `Path::file_name` gives it: not for `/`, `.`, `..` or the empty path.
pub open spec fn file_name(path: Seq<char>) -> Option<Seq<char>> {
    match last_component(path, None) {
        Some(c) => if c == seq!['.', '.'] {
            None
        } else {
            Some(c)
        },
        None => None,
    }
}

/// The position of the last `.` in `name`, or -1.
pub open spec fn last_dot(name: Seq<char>) -> int
    decreases name.len(),
{
    if name.len() == 0 {
        -1
    } else if name.last() == '.' {
        name.len() - 1
    } else {
        last_dot(name.drop_last())
    }
}

/// `name` without its extension, as `Path::file_stem` takes it: the part
/// before the last `.`, unless that part would be empty.
pub open spec fn stem_of(name: Seq<char>) -> Seq<char> {
    let d = last_dot(name);
    if d <= 0 {
        name
    } else {
        name.take(d)
    }
}

/// What `Path::file_stem` gives for a Unix path.
pub open spec fn file_stem_spec(path: Seq<char>) -> Option<Seq<char>> {
    match file_name(path) {
        Some(name) => Some(stem_of(name)),
        None => None,
    }
}

/// The file name of the Unix path `path` without its extension.
pub fn file_stem(path: &str) -> (r: Option<&str>)
    ensures
        match (r, file_stem_spec(path@)) {
            (Some(s), Some(expected)) => s@ == expected,
            (None, None) => true,
            _ => false,
        },
{
    let n = path.unicode_len();
    let mut p: usize = 0;
    let mut found = false;
    let mut ls: usize = 0;
    let mut le: usize = 0;
    assert(path@.skip(0) =~= path@);
    loop
        invariant
            n == path@.len(),
            p <= n,
            ls <= le <= n,
            last_component(path@, None) == last_component(
                path@.skip(p as int),
                if found {
                    Some(path@.subrange(ls as int, le as int))
                } else {
                    None
                },
            ),
        decreases n - p,
    {
        let ghost prev = if found {
            Some(path@.subrange(ls as int, le as int))
        } else {
            None::<Seq<char>>
        };
        let e = find_sep(path, n, '/', p);
        proof {
            lemma_seg_len(path@.skip(p as int), '/');
        }
        let ghost c = path@.skip(p as int).take(e - p);
        assert(c =~= path@.subrange(p as int, e as int));
        let skipped = e == p || (e - p == 1 && path.get_char(p) == '.');
        proof {
            if e - p == 1 {
                assert(c.len() == 1 && c[0] == path@[p as int]);
                if path@[p as int] == '.' {
                    assert(c =~= seq!['.']);
                } else {
                    assert(c != seq!['.']) by {
                        assert(c[0] != seq!['.'][0]);
                    }
                }
            }
        }
        if !skipped {
            found = true;
            ls = p;
            le = e;
        }
        if e == n {
            if !found {
                return None;
            }
            let name_len = le - ls;
            if name_len == 2 && path.get_char(ls) == '.' && path.get_char(ls + 1) == '.' {
                assert(path@.subrange(ls as int, le as int) =~= seq!['.', '.']);
                return None;
            }
            proof {
                let name = path@.subrange(ls as int, le as int);
                if name == seq!['.', '.'] {
                    assert(name[0] == '.' && name[1] == '.');
                }
            }
            return Some(stem_in(path, n, ls, le));
        }
        assert(path@.skip(p as int).skip(e - p + 1) =~= path@.skip(e + 1));
        p = e + 1;
    }
}

/// The stem of the file name `path[ls..le]`.
fn stem_in(path: &str, n: usize, ls: usize, le: usize) -> (r: &str)
    requires
        n == path@.len(),
        ls <= le <= n,
    ensures
        r@ == stem_of(path@.subrange(ls as int, le as int)),
{
    let ghost name = path@.subrange(ls as int, le as int);
    let mut j = le;
    assert(name.take(le - ls) =~= name);
    while j > ls && path.get_char(j - 1) != '.'
        invariant
            n == path@.len(),
            ls <= j <= le <= n,
            name == path@.subrange(ls as int, le as int),
            last_dot(name) == last_dot(name.take(j - ls)),
        decreases j - ls,
    {
        assert(name.take(j - ls).drop_last() =~= name.take(j - 1 - ls));
        assert(name.take(j - ls).last() == path@[j - 1]);
        j = j - 1;
    }
    if j > ls {
        assert(name.take(j - ls).last() == path@[j - 1]);
    }
    if j - ls > 1 {
        assert(name.take(j - 1 - ls) =~= path@.subrange(ls as int, j - 1));
        path.substring_char(ls, j - 1)
    } else {
        path.substring_char(ls, le)
    }
}

} // verus!

verus! {

/// The number of characters that one `read_line` takes from the front of
/// `t`: its first line and the line break that ends it, if any.
pub open spec fn line_span(t: Seq<char>) -> nat {
    let n = seg_len(t, '\n');
    if n < t.len() {
        n + 1
    } else {
        n
    }
}

/// What follows the title line of the post file `t`.
pub open spec fn after_title(t: Seq<char>) -> Seq<char> {
    t.skip(line_span(t) as int)
}

/// The title of the post file `t`: its first line, trimmed.
pub open spec fn post_title(t: Seq<char>) -> Seq<char> {
    trimmed(piece(t, '\n', 0))
}

/// The second line of the post file `t`, with its line break.
pub open spec fn separator_line(t: Seq<char>) -> Seq<char> {
    after_title(t).take(line_span(after_title(t)) as int)
}

/// Whether `l` is at most one byte long in UTF-8, as the line that
/// separates the title from the body must be: empty, a lone line break, or
/// one ASCII character that ends the file.
pub open spec fn is_separator(l: Seq<char>) -> bool {
    l.len() == 0 || (l.len() == 1 && (l[0] as int) < 0x80)
}

/// The Markdown body of the post file `t`: all after its second line,
/// trimmed.
pub open spec fn post_body(t: Seq<char>) -> Seq<char> {
    trimmed(after_title(t).skip(line_span(after_title(t)) as int))
}

/// The HTML that `comrak::markdown_to_html` renders for the Markdown text
/// `md` under comrak's default options.
pub uninterp spec fn markdown_html(md: Seq<char>) -> Seq<char>;

/// Renders `md` with `comrak::markdown_to_html` under `Options::default()`.
/// Trusted: the result is comrak's rendering of `md`, which depends on `md`
/// alone; nothing more of it is stated.
#[verifier::external_body]
fn render_markdown(md: &str) -> (r: String)
    ensures
        r@ == markdown_html(md@),
{
    comrak::markdown_to_html(md, &comrak::Options::default())
}

/// A post ready to be published.
pub struct Post {
    pub title: String,
    pub slogan: String,
    pub content_html: String,
}

/// Why a post file cannot be published.
#[derive(Debug, PartialEq, Eq, Structural)]
pub enum PostError {
    /// The path names no file.
    NoFileName,
    /// The title is not followed by a blank line.
    InvalidFormat,
}

/// Makes the post that the file at `md_path`, with text `text`, holds:
/// its slogan is the file's stem, its title the first line, and its content
/// the rest after a blank line, rendered to HTML.
pub fn read_markdown(md_path: &str, text: &str) -> (r: Result<Post, PostError>)
    ensures
        r matches Err(PostError::NoFileName) <==> file_stem_spec(md_path@) is None,
        r matches Err(PostError::InvalidFormat) <==> (file_stem_spec(md_path@) is Some
            && !is_separator(separator_line(text@))),
        r matches Ok(p) ==> {
            &&& p.slogan@ == file_stem_spec(md_path@)->0
            &&& p.title@ == post_title(text@)
            &&& p.content_html@ == markdown_html(post_body(text@))
        },
{
    let slogan = match file_stem(md_path) {
        Some(s) => String::from_str(s),
        None => {
            return Err(PostError::NoFileName);
        },
    };
    let n = text.unicode_len();
    assert(text@.skip(0) =~= text@);
    let e0 = find_sep(text, n, '\n', 0);
    proof {
        lemma_seg_len(text@, '\n');
    }
    let s1 = if e0 < n {
        e0 + 1
    } else {
        e0
    };
    assert(after_title(text@) =~= text@.skip(s1 as int));
    let e1 = find_sep(text, n, '\n', s1);
    proof {
        lemma_seg_len(text@.skip(s1 as int), '\n');
    }
    let s2 = if e1 < n {
        e1 + 1
    } else {
        e1
    };
    assert(separator_line(text@) =~= text@.subrange(s1 as int, s2 as int));
    let blank = s2 - s1 == 0 || (s2 - s1 == 1 && (text.get_char(s1) as u32) < 0x80);
    if !blank {
        return Err(PostError::InvalidFormat);
    }
    assert(text@.take(e0 as int) =~= text@.subrange(0, e0 as int));
    let title = String::from_str(trim(text.substring_char(0, e0)));
    assert(after_title(text@).skip(s2 - s1) =~= text@.subrange(s2 as int, n as int));
    let body = trim(text.substring_char(s2, n));
    let content_html = render_markdown(body);
    Ok(Post { title, slogan, content_html })
}

} // verus!

verus! {

proof fn lemma_last_component_name(name: Seq<char>, last: Option<Seq<char>>)
    requires
        name.len() > 0,
        !name.contains('/'),
        name != seq!['.'],
    ensures
        last_component(name, last) == Some(name),
{
    crate::text::lemma_piece_whole(name, '/');
    assert(name.take(name.len() as int) =~= name);
}

proof fn lemma_last_component_after(s: Seq<char>, name: Seq<char>, last: Option<Seq<char>>)
    requires
        name.len() > 0,
        !name.contains('/'),
        name != seq!['.'],
    ensures
        last_component(s + seq!['/'] + name, last) == Some(name),
    decreases s.len(),
{
    let x = s + seq!['/'] + name;
    lemma_seg_len(s, '/');
    crate::text::lemma_seg_len_concat(s, seq!['/'] + name, '/');
    assert(x =~= s + (seq!['/'] + name));
    assert((seq!['/'] + name)[0] == '/');
    let n = seg_len(x, '/');
    if seg_len(s, '/') < s.len() {
        assert(x.skip((n + 1) as int) =~= s.skip((n + 1) as int) + seq!['/'] + name);
        let kept = if x.take(n as int).len() == 0 || x.take(n as int) == seq!['.'] {
            last
        } else {
            Some(x.take(n as int))
        };
        lemma_last_component_after(s.skip((n + 1) as int), name, kept);
    } else {
        assert(x.skip((n + 1) as int) =~= name);
        let kept = if x.take(n as int).len() == 0 || x.take(n as int) == seq!['.'] {
            last
        } else {
            Some(x.take(n as int))
        };
        lemma_last_component_name(name, kept);
    }
}

proof fn lemma_last_dot_ext(stem: Seq<char>, ext: Seq<char>)
    requires
        !ext.contains('.'),
    ensures
        last_dot(stem + seq!['.'] + ext) == stem.len(),
    decreases ext.len(),
{
    let name = stem + seq!['.'] + ext;
    if ext.len() == 0 {
        assert(name.last() == '.');
    } else {
        assert(name.last() == ext.last());
        assert(ext.last() != '.') by {
            if ext.last() == '.' {
                assert(ext.contains('.'));
            }
        }
        assert(!ext.drop_last().contains('.')) by {
            if ext.drop_last().contains('.') {
                let i = choose|i: int| 0 <= i < ext.drop_last().len() && ext.drop_last()[i] == '.';
                assert(ext[i] == '.');
            }
        }
        lemma_last_dot_ext(stem, ext.drop_last());
        assert(name.drop_last() =~= stem + seq!['.'] + ext.drop_last());
    }
}

/// The slogan of a post is its file's name less the extension: for a file
/// named `stem.ext` (with a nonempty `stem` and an extension without `.`),
/// in the directory `dir` or in none, the stem is exactly `stem`, however
/// long the extension is.
pub proof fn lemma_file_stem_strips_extension(dir: Seq<char>, stem: Seq<char>, ext: Seq<char>)
    requires
        dir.len() == 0 || dir.last() == '/',
        stem.len() > 0,
        !stem.contains('/'),
        ext.len() > 0,
        !ext.contains('/'),
        !ext.contains('.'),
    ensures
        file_stem_spec(dir + stem + seq!['.'] + ext) == Some(stem),
{
    let name = stem + seq!['.'] + ext;
    assert(!name.contains('/')) by {
        if name.contains('/') {
            let i = choose|i: int| 0 <= i < name.len() && name[i] == '/';
            if i < stem.len() {
                assert(stem[i] == '/');
            } else if i > stem.len() {
                assert(ext[i - stem.len() - 1] == '/');
            }
        }
    }
    assert(name != seq!['.']) by {
        assert(name.len() >= 3);
    }
    if dir.len() == 0 {
        assert(dir + name =~= name);
        lemma_last_component_name(name, None);
    } else {
        assert(dir + name =~= dir.drop_last() + seq!['/'] + name);
        lemma_last_component_after(dir.drop_last(), name, None);
    }
    assert(dir + stem + seq!['.'] + ext =~= dir + name);
    assert(name != seq!['.', '.']) by {
        assert(name.len() >= 3);
    }
    lemma_last_dot_ext(stem, ext);
    assert(name.take(stem.len() as int) =~= stem);
}

/// A post file is a title line, a blank line and the body: for a title
/// line `t`, a body `b`, and any line `l` that is not empty,
/// `t`, a line break, a line break and `b` passes the check and gives the
/// title `t` and the body `b`, each trimmed; with `l` in place of the blank
/// line it fails the check.
pub proof fn lemma_post_file_parts(t: Seq<char>, l: Seq<char>, b: Seq<char>)
    requires
        !t.contains('\n'),
        !l.contains('\n'),
        l.len() > 0,
    ensures
        post_title(t + seq!['\n'] + seq!['\n'] + b) == trimmed(t),
        is_separator(separator_line(t + seq!['\n'] + seq!['\n'] + b)),
        post_body(t + seq!['\n'] + seq!['\n'] + b) == trimmed(b),
        !is_separator(separator_line(t + seq!['\n'] + l + seq!['\n'] + b)),
{
    let nl = seq!['\n'];
    let x = t + nl + nl + b;
    crate::text::lemma_piece_after(t, '\n', nl + b, 0);
    crate::text::lemma_piece_whole(t, '\n');
    crate::text::lemma_seg_len_concat(t, nl + nl + b, '\n');
    assert(x =~= t + (nl + nl + b));
    assert((nl + nl + b)[0] == '\n');
    assert(x =~= t + nl + (nl + b));
    assert(after_title(x) =~= nl + b);
    assert((nl + b)[0] == '\n');
    assert(separator_line(x) =~= nl);
    assert(after_title(x).skip(1) =~= b);
    let y = t + nl + l + nl + b;
    crate::text::lemma_seg_len_concat(t, nl + l + nl + b, '\n');
    assert(y =~= t + (nl + l + nl + b));
    assert((nl + l + nl + b)[0] == '\n');
    assert(after_title(y) =~= l + nl + b);
    crate::text::lemma_piece_whole(l, '\n');
    crate::text::lemma_seg_len_concat(l, nl + b, '\n');
    assert(l + nl + b =~= l + (nl + b));
    assert(separator_line(y).len() == l.len() + 1);
}

proof fn lemma_last_dot_none(name: Seq<char>)
    requires
        !name.contains('.'),
    ensures
        last_dot(name) == -1,
    decreases name.len(),
{
    if name.len() > 0 {
        assert(name.last() != '.') by {
            if name.last() == '.' {
                assert(name.contains('.'));
            }
        }
        assert(!name.drop_last().contains('.')) by {
            if name.drop_last().contains('.') {
                let i = choose|i: int| 0 <= i < name.drop_last().len() && name.drop_last()[i] == '.';
                assert(name[i] == '.');
            }
        }
        lemma_last_dot_none(name.drop_last());
    }
}

/// A file name without an extension is its own stem: for a nonempty name
/// with no `.` or `/`, in the directory `dir` or in none, the stem is the
/// whole name.
pub proof fn lemma_file_stem_without_extension(dir: Seq<char>, name: Seq<char>)
    requires
        dir.len() == 0 || dir.last() == '/',
        name.len() > 0,
        !name.contains('/'),
        !name.contains('.'),
    ensures
        file_stem_spec(dir + name) == Some(name),
{
    assert(name != seq!['.']) by {
        if name == seq!['.'] {
            assert(name[0] == '.');
        }
    }
    assert(name != seq!['.', '.']) by {
        if name == seq!['.', '.'] {
            assert(name[0] == '.');
        }
    }
    if dir.len() == 0 {
        assert(dir + name =~= name);
        lemma_last_component_name(name, None);
    } else {
        assert(dir + name =~= dir.drop_last() + seq!['/'] + name);
        lemma_last_component_after(dir.drop_last(), name, None);
    }
    lemma_last_dot_none(name);
}

} // verus!
