use tistory::api::{category_list_url, category_table, post_id_from, post_write_body, Category};
use tistory::command::{parse_command, Command};
use tistory::credentials::{
    format_credentials, has_access_token, parse_credentials, with_access_token,
    without_access_token, Credentials, CredentialsError,
};
use tistory::oauth::{
    access_token_from_reply, access_token_url, auth_code_from_query, authorize_url, plan_login,
    AuthCodeError, LoginError, LoginPlan,
};
use tistory::post::{file_stem, read_markdown, PostError};
use tistory::text::{decimal_string, parse_decimal, piece_of, same_text, trim};

fn creds(port: u16, id: &str, secret: &str, token: &str) -> Credentials {
    Credentials {
        redirect_port: port,
        client_id: id.to_string(),
        client_secret: secret.to_string(),
        access_token: token.to_string(),
    }
}

#[test]
fn it_works() {
    assert_eq!(2 + 2, 4);
}

#[test]
fn read_full_credentials() {
    let cred = parse_credentials("8888\nCLIENT_ID\nCLIENT_SECRET\nACCESS_TOKEN\n").unwrap();
    assert_eq!(cred.redirect_port, 8888);
    assert_eq!(cred.client_id, "CLIENT_ID");
    assert_eq!(cred.client_secret, "CLIENT_SECRET");
    assert_eq!(cred.access_token, "ACCESS_TOKEN");
}

#[test]
fn read_partial_credentials() {
    let cred = parse_credentials("8888\nCLIENT_ID\nCLIENT_SECRET\n").unwrap();
    assert_eq!(cred.redirect_port, 8888);
    assert_eq!(cred.client_id, "CLIENT_ID");
    assert_eq!(cred.client_secret, "CLIENT_SECRET");
    assert_eq!(cred.access_token, "");
}

#[test]
fn read_empty_credentials() {
    assert_eq!(parse_credentials("").err(), Some(CredentialsError::InvalidPort));
}

#[test]
fn credentials_lines_are_trimmed_and_may_run_short() {
    let cred = parse_credentials("  8080 \r\n id\t\r\n").unwrap();
    assert_eq!(cred.redirect_port, 8080);
    assert_eq!(cred.client_id, "id");
    assert_eq!(cred.client_secret, "");
    assert_eq!(cred.access_token, "");
    let cred = parse_credentials("+1\nA\nB\nC\nD\nE").unwrap();
    assert_eq!(cred.redirect_port, 1);
    assert_eq!(cred.access_token, "C");
}

#[test]
fn credentials_with_bad_ports_are_refused() {
    for text in ["abc\nx", "65536\nx", "-1\n", "+\n", "80 80\n", "\n8080\n"] {
        assert_eq!(parse_credentials(text).err(), Some(CredentialsError::InvalidPort), "{:?}", text);
    }
    assert_eq!(parse_credentials("65535").unwrap().redirect_port, 65535);
}

#[test]
fn written_credentials_read_back() {
    let c = creds(8888, "CLIENT_ID", "CLIENT_SECRET", "ACCESS_TOKEN");
    let text = format_credentials(&c);
    assert_eq!(text, "8888\nCLIENT_ID\nCLIENT_SECRET\nACCESS_TOKEN\n");
    let back = parse_credentials(&text).unwrap();
    assert_eq!(back.redirect_port, 8888);
    assert_eq!(back.client_id, "CLIENT_ID");
    assert_eq!(back.client_secret, "CLIENT_SECRET");
    assert_eq!(back.access_token, "ACCESS_TOKEN");
}

#[test]
fn logout_clears_only_the_token() {
    let c = without_access_token(creds(1, "a", "b", "tok"));
    assert!(!has_access_token(&c));
    assert_eq!(format_credentials(&c), "1\na\nb\n\n");
    let back = parse_credentials(&format_credentials(&c)).unwrap();
    assert_eq!(back.redirect_port, 1);
    assert_eq!(back.client_id, "a");
    assert_eq!(back.client_secret, "b");
    assert_eq!(back.access_token, "");
}

#[test]
fn stored_token_reads_back() {
    let c = with_access_token(creds(0, "a", "b", ""), "NEW".to_string());
    assert!(has_access_token(&c));
    let back = parse_credentials(&format_credentials(&c)).unwrap();
    assert_eq!(back.access_token, "NEW");
    assert_eq!(back.redirect_port, 0);
}

#[test]
fn trim_matches_std() {
    let samples = [
        "", " ", "abc", "  a b  ", "\t\n x\r\n", "\u{a0}y\u{3000}", "\u{2000}\u{200a}z\u{85}",
        "\u{200b}q\u{200b}", "\u{1680}", "x\u{2028}\u{2029}\u{202f}\u{205f}",
    ];
    for s in samples {
        assert_eq!(trim(s), s.trim(), "{:?}", s);
    }
}

#[test]
fn pieces_match_split() {
    let samples = ["", "a", "a=b", "a=b=c", "=x", "x=", "==", "é=ü=ß"];
    for s in samples {
        let parts: Vec<&str> = s.split('=').collect();
        for k in 0..4 {
            let expected = if k < parts.len() { parts[k] } else { "" };
            assert_eq!(piece_of(s, '=', k), expected, "{:?} {}", s, k);
        }
    }
}

#[test]
fn decimal_parsing_matches_std() {
    let samples = [
        "", "0", "00", "+", "+0", "+12", "-0", "-1", "1a", " 1", "65535", "65536", "4294967295",
        "4294967296", "99999999999999999999", "007", "++1", "\u{0661}",
    ];
    for s in samples {
        assert_eq!(parse_decimal(s, 0xffff), s.parse::<u16>().ok().map(|v| v as u64), "{:?}", s);
        assert_eq!(parse_decimal(s, 0xffff_ffff), s.parse::<u32>().ok().map(|v| v as u64), "{:?}", s);
        assert_eq!(post_id_from(s), s.parse::<u32>().ok(), "{:?}", s);
    }
}

#[test]
fn decimal_spelling_matches_std() {
    for n in [0u32, 7, 9, 10, 99, 100, 8888, 65535, 4294967295] {
        assert_eq!(decimal_string(n), n.to_string());
    }
}

#[test]
fn same_text_compares_characters() {
    assert!(same_text("login", "login"));
    assert!(!same_text("login", "logout"));
    assert!(!same_text("", "x"));
    assert!(same_text("", ""));
}

#[test]
fn file_stem_matches_std() {
    let samples = [
        "", "/", ".", "..", "./", "a", "a.md", "dir/post.md", "dir/post.md/", "a/./", "a/..",
        "a/../b.txt", ".bashrc", "a.b.c", "a.", "...", "..a", "x/.hidden.md", "//a//b.c//",
        "tests/data/tistory-cli-test.md", "./post", "/.", "a/.b/.",
    ];
    for s in samples {
        let expected = std::path::Path::new(s).file_stem().map(|o| o.to_str().unwrap());
        assert_eq!(file_stem(s), expected, "{:?}", s);
    }
}

#[test]
fn test_markdown() {
    let post = read_markdown(
        "tests/data/tistory-cli-test.md",
        "Tistory CLI Test\n\n# Hello\n\nThis is a *test*.\n",
    )
    .unwrap();
    assert_eq!(post.title, "Tistory CLI Test");
    assert_eq!(post.slogan, "tistory-cli-test");
    assert_eq!(post.content_html, "<h1>Hello</h1>\n<p>This is a <em>test</em>.</p>\n");
}

#[test]
fn markdown_renders_as_comrak_does() {
    let body = "- a\n- b\n\n`code` and **bold**";
    let post = read_markdown("p.md", &format!("T\n\n{}", body)).unwrap();
    assert_eq!(post.content_html, comrak::markdown_to_html(body, &comrak::Options::default()));
    assert_ne!(post.content_html, body);
}

#[test]
fn markdown_separator_must_be_blank() {
    assert!(matches!(read_markdown("p.md", "Title\nnot blank\nbody"), Err(PostError::InvalidFormat)));
    assert!(matches!(read_markdown("p.md", "Title\r\n\r\nbody"), Err(PostError::InvalidFormat)));
    assert!(matches!(read_markdown("p.md", "Title\n\u{e9}"), Err(PostError::InvalidFormat)));
    let post = read_markdown("p.md", "Title\nx").unwrap();
    assert_eq!(post.title, "Title");
    assert_eq!(post.content_html, "");
    let post = read_markdown("p.md", "  Only title  ").unwrap();
    assert_eq!(post.title, "Only title");
    assert_eq!(post.content_html, "");
}

#[test]
fn markdown_needs_a_file_name() {
    assert!(matches!(read_markdown("..", "Title\n\nbody"), Err(PostError::NoFileName)));
    assert!(matches!(read_markdown("/", "Title\nbad\n"), Err(PostError::NoFileName)));
}

#[test]
fn login_plans() {
    assert_eq!(plan_login(&creds(1, "", "s", "t")).err(), Some(LoginError::NoClientId));
    assert_eq!(plan_login(&creds(1, "", "", "")).err(), Some(LoginError::NoClientId));
    assert_eq!(plan_login(&creds(1, "i", "", "t")).err(), Some(LoginError::NoClientSecret));
    assert!(matches!(plan_login(&creds(1, "i", "s", "t")), Ok(LoginPlan::Authorized)));
    match plan_login(&creds(8888, "ID", "s", "")) {
        Ok(LoginPlan::Authorize { url }) => assert_eq!(
            url,
            "https://www.tistory.com/oauth/authorize?response_type=code&client_id=ID&redirect_uri=http://localhost:8888"
        ),
        _ => panic!("expected an authorization"),
    }
}

#[test]
fn oauth_urls() {
    let c = creds(8888, "ID", "SECRET", "");
    assert_eq!(
        authorize_url(&c),
        "https://www.tistory.com/oauth/authorize?response_type=code&client_id=ID&redirect_uri=http://localhost:8888"
    );
    assert_eq!(
        access_token_url("CODE", &c),
        "https://www.tistory.com/oauth/access_token?code=CODE&client_id=ID&client_secret=SECRET&redirect_uri=http://localhost:8888&grant_type=authorization_code"
    );
}

#[test]
fn auth_codes_from_queries() {
    assert_eq!(auth_code_from_query("code=abc&state=x").unwrap(), "abc");
    assert_eq!(auth_code_from_query("state=x&code=abc").unwrap(), "abc");
    assert_eq!(auth_code_from_query("codex=1=2&code=3").unwrap(), "1");
    assert_eq!(auth_code_from_query("code=").unwrap(), "");
    assert_eq!(auth_code_from_query("state=1").err(), Some(AuthCodeError::NoCode));
    assert_eq!(auth_code_from_query("").err(), Some(AuthCodeError::NoCode));
    assert_eq!(auth_code_from_query("cod=1&code").err(), Some(AuthCodeError::NoValue));
}

#[test]
fn tokens_from_replies() {
    assert_eq!(access_token_from_reply("access_token=XYZ").unwrap(), "XYZ");
    assert_eq!(access_token_from_reply("a=b=c").unwrap(), "b");
    assert_eq!(access_token_from_reply("error"), None);
}

#[test]
fn category_requests_and_table() {
    assert_eq!(
        category_list_url("TOKEN", "dgkim5360"),
        "https://www.tistory.com/apis/category/list?access_token=TOKEN&blogName=dgkim5360&output=json"
    );
    let cat = |id: &str, name: &str| Category {
        id: id.to_string(),
        name: name.to_string(),
        parent: String::new(),
        label: name.to_string(),
        entries: "0".to_string(),
        entries_in_login: "0".to_string(),
    };
    assert_eq!(category_table(&vec![]), "ID\tCATEGORY\n--\t--------\n");
    assert_eq!(
        category_table(&vec![cat("991057", "Rust"), cat("2", "Misc")]),
        "ID\tCATEGORY\n--\t--------\n991057\tRust\n2\tMisc\n"
    );
}

#[test]
fn post_request_body() {
    assert_eq!(
        post_write_body("T", "blog", "Title", "991057", "<p>x</p>", "slug"),
        "access_token=T&blogName=blog&title=Title&category=991057&content=<p>x</p>&slogan=slug&output=json"
    );
    assert_eq!(post_id_from("12345"), Some(12345));
    assert_eq!(post_id_from("x"), None);
}

fn args(list: &[&str]) -> Vec<String> {
    list.iter().map(|s| s.to_string()).collect()
}

#[test]
fn command_lines() {
    assert!(matches!(parse_command(&args(&["tistory"])), Command::Usage));
    assert!(matches!(parse_command(&args(&[])), Command::Usage));
    assert!(matches!(parse_command(&args(&["tistory", "login"])), Command::Login));
    assert!(matches!(parse_command(&args(&["tistory", "logout", "x"])), Command::Logout));
    assert!(matches!(parse_command(&args(&["tistory", "category"])), Command::Usage));
    assert!(matches!(parse_command(&args(&["tistory", "post", "a", "b"])), Command::Usage));
    assert!(matches!(parse_command(&args(&["tistory", "Login"])), Command::Usage));
    match parse_command(&args(&["tistory", "category", "blog"])) {
        Command::Category { blog_name } => assert_eq!(blog_name, "blog"),
        _ => panic!("expected a category command"),
    }
    match parse_command(&args(&["tistory", "post", "blog", "7", "p.md", "extra"])) {
        Command::Post { blog_name, category_id, file_path } => {
            assert_eq!(blog_name, "blog");
            assert_eq!(category_id, "7");
            assert_eq!(file_path, "p.md");
        }
        _ => panic!("expected a post command"),
    }
}

#[test]
fn rewritten_file_reads_the_same() {
    let text = "  8888 \n  ID \nSECRET\r\nTOKEN\n\nextra";
    let first = parse_credentials(text).unwrap();
    let written = format_credentials(&first);
    assert_eq!(written, "8888\nID\nSECRET\nTOKEN\n");
    let second = parse_credentials(&written).unwrap();
    assert_eq!(second.redirect_port, first.redirect_port);
    assert_eq!(second.client_id, first.client_id);
    assert_eq!(second.client_secret, first.client_secret);
    assert_eq!(second.access_token, first.access_token);
}

#[test]
fn logout_of_a_read_file() {
    let first = parse_credentials("\t42\n id \n secret \n token \n").unwrap();
    let out = without_access_token(first);
    let back = parse_credentials(&format_credentials(&out)).unwrap();
    assert_eq!(back.redirect_port, 42);
    assert_eq!(back.client_id, "id");
    assert_eq!(back.client_secret, "secret");
    assert_eq!(back.access_token, "");
}

#[test]
fn token_with_line_break_is_trimmed_on_reading() {
    let token = access_token_from_reply("access_token=abc\n").unwrap();
    assert_eq!(token, "abc\n");
    let c = with_access_token(creds(1, "a", "b", ""), token);
    assert_eq!(parse_credentials(&format_credentials(&c)).unwrap().access_token, "abc");
}
