//! The blog API: the category listing and the post request.
use vstd::prelude::*;
use vstd::string::*;

use crate::text::{
    decimal_value, lemma_concat_lacks, lemma_piece_after, lemma_piece_whole, parse_decimal, piece,
};

verus! {

/// The request that lists the categories of the blog `blog_name`.
pub open spec fn category_list_url_spec(access_token: Seq<char>, blog_name: Seq<char>) -> Seq<char> {
    "https://www.tistory.com/apis/category/list?access_token="@ + access_token + "&blogName="@
        + blog_name + "&output=json"@
}

/// The request that lists the categories of the blog `blog_name`.
pub fn category_list_url(access_token: &str, blog_name: &str) -> (r: String)
    ensures
        r@ == category_list_url_spec(access_token@, blog_name@),
{
    let mut r = String::from_str("https://www.tistory.com/apis/category/list?access_token=");
    r.append(access_token);
    r.append("&blogName=");
    r.append(blog_name);
    r.append("&output=json");
    r
}

/// A category of a blog, as the category listing gives it.
pub struct Category {
    pub id: String,
    pub name: String,
    pub parent: String,
    pub label: String,
    pub entries: String,
    pub entries_in_login: String,
}

/// The first two lines of the category table.
pub open spec fn category_table_head() -> Seq<char> {
    "ID\tCATEGORY\n--\t--------\n"@
}

/// One line per category: its ID, a tab, its name.
pub open spec fn category_rows(cats: Seq<Category>) -> Seq<char>
    decreases cats.len(),
{
    if cats.len() == 0 {
        Seq::empty()
    } else {
        category_rows(cats.drop_last()) + cats.last().id@ + "\t"@ + cats.last().name@ + "\n"@
    }
}

/// The table of categories that the `category` command prints.
pub fn category_table(cats: &Vec<Category>) -> (r: String)
    ensures
        r@ == category_table_head() + category_rows(cats@),
{
    let mut r = String::from_str("ID\tCATEGORY\n--\t--------\n");
    let n = cats.len();
    assert(cats@.take(0) =~= Seq::<Category>::empty());
    for i in 0..n
        invariant
            n == cats@.len(),
            r@ == category_table_head() + category_rows(cats@.take(i as int)),
    {
        r.append(cats[i].id.as_str());
        r.append("\t");
        r.append(cats[i].name.as_str());
        r.append("\n");
        assert(cats@.take(i + 1).drop_last() =~= cats@.take(i as int));
        assert(cats@.take(i + 1).last() == cats@[i as int]);
    }
    assert(cats@.take(n as int) =~= cats@);
    r
}

/// The form body of the request that publishes a post.
pub open spec fn post_write_body_spec(
    access_token: Seq<char>,
    blog_name: Seq<char>,
    title: Seq<char>,
    category_id: Seq<char>,
    content: Seq<char>,
    slogan: Seq<char>,
) -> Seq<char> {
    "access_token="@ + access_token + "&blogName="@ + blog_name + "&title="@ + title
        + "&category="@ + category_id + "&content="@ + content + "&slogan="@ + slogan
        + "&output=json"@
}

/// The form body of the request that publishes a post.
pub fn post_write_body(
    access_token: &str,
    blog_name: &str,
    title: &str,
    category_id: &str,
    content: &str,
    slogan: &str,
) -> (r: String)
    ensures
        r@ == post_write_body_spec(
            access_token@,
            blog_name@,
            title@,
            category_id@,
            content@,
            slogan@,
        ),
{
    let mut r = String::from_str("access_token=");
    r.append(access_token);
    r.append("&blogName=");
    r.append(blog_name);
    r.append("&title=");
    r.append(title);
    r.append("&category=");
    r.append(category_id);
    r.append("&content=");
    r.append(content);
    r.append("&slogan=");
    r.append(slogan);
    r.append("&output=json");
    r
}

/// Reads the ID of a new post out of the `postId` field of the reply, as
/// `str::parse::<u32>` reads it; `None` when it is not such a number.
pub fn post_id_from(text: &str) -> (r: Option<u32>)
    ensures
        r is Some <==> (decimal_value(text@) is Some && decimal_value(text@)->0 <= u32::MAX),
        r matches Some(v) ==> v == decimal_value(text@)->0,
{
    match parse_decimal(text, 0xffff_ffff) {
        Some(v) => Some(v as u32),
        None => None,
    }
}

/// The category request asks for the blog it is given with the token it is
/// given: split at `&`, its fields are the category list endpoint with
/// `access_token=` and the token, `blogName=` with the blog's name, and
/// `output=json`, and nothing more.
pub proof fn lemma_category_list_url_fields(access_token: Seq<char>, blog_name: Seq<char>)
    requires
        !access_token.contains('&'),
        !blog_name.contains('&'),
    ensures
        piece(category_list_url_spec(access_token, blog_name), '&', 0)
            == "https://www.tistory.com/apis/category/list?access_token="@ + access_token,
        piece(category_list_url_spec(access_token, blog_name), '&', 1) == "blogName="@ + blog_name,
        piece(category_list_url_spec(access_token, blog_name), '&', 2) == "output=json"@,
        piece(category_list_url_spec(access_token, blog_name), '&', 3).len() == 0,
{
    reveal_strlit("https://www.tistory.com/apis/category/list?access_token=");
    reveal_strlit("&blogName=");
    reveal_strlit("blogName=");
    reveal_strlit("&output=json");
    reveal_strlit("output=json");
    let amp = seq!['&'];
    let base = "https://www.tistory.com/apis/category/list?access_token="@;
    let p0 = base + access_token;
    let p1 = "blogName="@ + blog_name;
    let p2 = "output=json"@;
    assert(!base.contains('&'));
    assert(!"blogName="@.contains('&'));
    assert(!p2.contains('&'));
    lemma_concat_lacks(base, access_token, '&');
    lemma_concat_lacks("blogName="@, blog_name, '&');
    assert("&blogName="@ =~= amp + "blogName="@);
    assert("&output=json"@ =~= amp + p2);
    let r1 = p1 + amp + p2;
    assert(category_list_url_spec(access_token, blog_name) =~= p0 + amp + r1);
    lemma_piece_after(p0, '&', r1, 0);
    lemma_piece_after(p0, '&', r1, 1);
    lemma_piece_after(p0, '&', r1, 2);
    lemma_piece_after(p1, '&', p2, 0);
    lemma_piece_after(p1, '&', p2, 1);
    lemma_piece_whole(p2, '&');
    assert(piece(p2, '&', 1).len() == 0);
}

/// The post request carries what it is given, each in its own form field:
/// split at `&`, the body's fields are `access_token=`, `blogName=`,
/// `title=`, `category=`, `content=` and `slogan=`, each with the value
/// given for it, and `output=json`, and nothing more.
pub proof fn lemma_post_write_body_fields(
    access_token: Seq<char>,
    blog_name: Seq<char>,
    title: Seq<char>,
    category_id: Seq<char>,
    content: Seq<char>,
    slogan: Seq<char>,
)
    requires
        !access_token.contains('&'),
        !blog_name.contains('&'),
        !title.contains('&'),
        !category_id.contains('&'),
        !content.contains('&'),
        !slogan.contains('&'),
    ensures
        ({
            let body = post_write_body_spec(
                access_token,
                blog_name,
                title,
                category_id,
                content,
                slogan,
            );
            &&& piece(body, '&', 0) == "access_token="@ + access_token
            &&& piece(body, '&', 1) == "blogName="@ + blog_name
            &&& piece(body, '&', 2) == "title="@ + title
            &&& piece(body, '&', 3) == "category="@ + category_id
            &&& piece(body, '&', 4) == "content="@ + content
            &&& piece(body, '&', 5) == "slogan="@ + slogan
            &&& piece(body, '&', 6) == "output=json"@
            &&& piece(body, '&', 7).len() == 0
        }),
{
    reveal_strlit("access_token=");
    reveal_strlit("&blogName=");
    reveal_strlit("blogName=");
    reveal_strlit("&title=");
    reveal_strlit("title=");
    reveal_strlit("&category=");
    reveal_strlit("category=");
    reveal_strlit("&content=");
    reveal_strlit("content=");
    reveal_strlit("&slogan=");
    reveal_strlit("slogan=");
    reveal_strlit("&output=json");
    reveal_strlit("output=json");
    let amp = seq!['&'];
    let p0 = "access_token="@ + access_token;
    let p1 = "blogName="@ + blog_name;
    let p2 = "title="@ + title;
    let p3 = "category="@ + category_id;
    let p4 = "content="@ + content;
    let p5 = "slogan="@ + slogan;
    let p6 = "output=json"@;
    assert(!"access_token="@.contains('&'));
    assert(!"blogName="@.contains('&'));
    assert(!"title="@.contains('&'));
    assert(!"category="@.contains('&'));
    assert(!"content="@.contains('&'));
    assert(!"slogan="@.contains('&'));
    assert(!p6.contains('&'));
    lemma_concat_lacks("access_token="@, access_token, '&');
    lemma_concat_lacks("blogName="@, blog_name, '&');
    lemma_concat_lacks("title="@, title, '&');
    lemma_concat_lacks("category="@, category_id, '&');
    lemma_concat_lacks("content="@, content, '&');
    lemma_concat_lacks("slogan="@, slogan, '&');
    assert("&blogName="@ =~= amp + "blogName="@);
    assert("&title="@ =~= amp + "title="@);
    assert("&category="@ =~= amp + "category="@);
    assert("&content="@ =~= amp + "content="@);
    assert("&slogan="@ =~= amp + "slogan="@);
    assert("&output=json"@ =~= amp + p6);
    let r5 = p5 + amp + p6;
    let r4 = p4 + amp + r5;
    let r3 = p3 + amp + r4;
    let r2 = p2 + amp + r3;
    let r1 = p1 + amp + r2;
    let body = post_write_body_spec(access_token, blog_name, title, category_id, content, slogan);
    assert(body =~= p0 + amp + r1);
    lemma_piece_after(p0, '&', r1, 0);
    lemma_piece_after(p0, '&', r1, 1);
    lemma_piece_after(p0, '&', r1, 2);
    lemma_piece_after(p0, '&', r1, 3);
    lemma_piece_after(p0, '&', r1, 4);
    lemma_piece_after(p0, '&', r1, 5);
    lemma_piece_after(p0, '&', r1, 6);
    lemma_piece_after(p1, '&', r2, 0);
    lemma_piece_after(p1, '&', r2, 1);
    lemma_piece_after(p1, '&', r2, 2);
    lemma_piece_after(p1, '&', r2, 3);
    lemma_piece_after(p1, '&', r2, 4);
    lemma_piece_after(p1, '&', r2, 5);
    lemma_piece_after(p2, '&', r3, 0);
    lemma_piece_after(p2, '&', r3, 1);
    lemma_piece_after(p2, '&', r3, 2);
    lemma_piece_after(p2, '&', r3, 3);
    lemma_piece_after(p2, '&', r3, 4);
    lemma_piece_after(p3, '&', r4, 0);
    lemma_piece_after(p3, '&', r4, 1);
    lemma_piece_after(p3, '&', r4, 2);
    lemma_piece_after(p3, '&', r4, 3);
    lemma_piece_after(p4, '&', r5, 0);
    lemma_piece_after(p4, '&', r5, 1);
    lemma_piece_after(p4, '&', r5, 2);
    lemma_piece_after(p5, '&', p6, 0);
    lemma_piece_after(p5, '&', p6, 1);
    lemma_piece_whole(p6, '&');
    assert(piece(p6, '&', 1).len() == 0);
}

proof fn lemma_rows_pieces(cats: Seq<Category>, r: Seq<char>, k: nat)
    requires
        forall|i: int|
            0 <= i < cats.len() ==> !(#[trigger] cats[i]).id@.contains('\n')
                && !cats[i].name@.contains('\n'),
    ensures
        piece(category_rows(cats) + r, '\n', k) == if k < cats.len() {
            cats[k as int].id@ + "\t"@ + cats[k as int].name@
        } else {
            piece(r, '\n', (k - cats.len()) as nat)
        },
    decreases cats.len(),
{
    reveal_strlit("\t");
    reveal_strlit("\n");
    if cats.len() == 0 {
        assert(category_rows(cats) + r =~= r);
    } else {
        let rest = cats.drop_last();
        let last = cats.last();
        assert(last == cats[cats.len() - 1]);
        let line = last.id@ + "\t"@ + last.name@;
        assert(!"\t"@.contains('\n'));
        lemma_concat_lacks(last.id@, "\t"@, '\n');
        lemma_concat_lacks(last.id@ + "\t"@, last.name@, '\n');
        let r2 = line + seq!['\n'] + r;
        assert(category_rows(cats) + r =~= category_rows(rest) + r2);
        assert forall|i: int| 0 <= i < rest.len() implies !(#[trigger] rest[i]).id@.contains('\n')
            && !rest[i].name@.contains('\n') by {
            assert(rest[i] == cats[i]);
        }
        lemma_rows_pieces(rest, r2, k);
        if k < rest.len() {
            assert(rest[k as int] == cats[k as int]);
        } else if k == rest.len() {
            lemma_piece_after(line, '\n', r, 0);
        } else {
            lemma_piece_after(line, '\n', r, (k - cats.len()) as nat);
            assert((k - rest.len()) as nat == (k - cats.len()) as nat + 1);
        }
    }
}

/// The category table is a header of two lines and then one line per
/// category, in the order given: the category's ID, a tab, and its name;
/// nothing follows the last line break.
pub proof fn lemma_category_table_lines(cats: Seq<Category>)
    requires
        forall|i: int|
            0 <= i < cats.len() ==> !(#[trigger] cats[i]).id@.contains('\n')
                && !cats[i].name@.contains('\n'),
    ensures
        piece(category_table_head() + category_rows(cats), '\n', 0) == "ID\tCATEGORY"@,
        piece(category_table_head() + category_rows(cats), '\n', 1) == "--\t--------"@,
        forall|k: int|
            0 <= k < cats.len() ==> piece(category_table_head() + category_rows(cats), '\n', (k + 2) as nat)
                == (#[trigger] cats[k]).id@ + "\t"@ + cats[k].name@,
        piece(category_table_head() + category_rows(cats), '\n', cats.len() + 2).len() == 0,
{
    reveal_strlit("ID\tCATEGORY\n--\t--------\n");
    reveal_strlit("ID\tCATEGORY");
    reveal_strlit("--\t--------");
    let l0 = "ID\tCATEGORY"@;
    let l1 = "--\t--------"@;
    let nl = seq!['\n'];
    let rows = category_rows(cats);
    assert(!l0.contains('\n'));
    assert(!l1.contains('\n'));
    let t = category_table_head() + rows;
    assert(t =~= l0 + nl + (l1 + nl + (rows + Seq::<char>::empty())));
    lemma_piece_after(l0, '\n', l1 + nl + (rows + Seq::<char>::empty()), 0);
    lemma_piece_after(l1, '\n', rows + Seq::<char>::empty(), 0);
    assert forall|k: int| 0 <= k < cats.len() implies piece(t, '\n', (k + 2) as nat) == (#[trigger] cats[k]).id@
        + "\t"@ + cats[k].name@ by {
        lemma_piece_after(l0, '\n', l1 + nl + (rows + Seq::<char>::empty()), (k + 1) as nat);
        lemma_piece_after(l1, '\n', rows + Seq::<char>::empty(), k as nat);
        lemma_rows_pieces(cats, Seq::<char>::empty(), k as nat);
    }
    lemma_piece_after(l0, '\n', l1 + nl + (rows + Seq::<char>::empty()), cats.len() + 1);
    lemma_piece_after(l1, '\n', rows + Seq::<char>::empty(), cats.len());
    lemma_rows_pieces(cats, Seq::<char>::empty(), cats.len());
}

} // verus!
