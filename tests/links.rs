use deployer::links::{split_lines, split_tokens};
use deployer::plan::Action;
use deployer::release::Release;

fn b(s: &str) -> Vec<u8> {
    s.as_bytes().to_vec()
}

fn link(release: &str, source: &str, dest: &str) -> Action {
    Action::Link { release: b(release), source: b(source), dest: b(dest) }
}

#[test]
fn lines_split_on_newline() {
    assert_eq!(split_lines(b"a\nb c\n"), vec![b("a"), b("b c"), b("")]);
    assert_eq!(split_lines(b""), vec![b("")]);
    assert_eq!(split_lines(b"x"), vec![b("x")]);
}

#[test]
fn tokens_split_on_whitespace() {
    assert_eq!(split_tokens(b"  a \t bb\r"), vec![b("a"), b("bb")]);
    assert_eq!(split_tokens(b"   "), Vec::<Vec<u8>>::new());
    assert_eq!(split_tokens(b"one"), vec![b("one")]);
}

#[test]
fn links_of_one_and_two_tokens() {
    let r = Release::new(b("i2021"));
    let plan = r.do_links(b"uploads\nconfig/db.yml app/config/db.yml\n");
    assert_eq!(
        plan,
        vec![
            link("i2021", "uploads", "uploads"),
            link("i2021", "config/db.yml", "app/config/db.yml"),
        ]
    );
}

#[test]
fn three_token_line_is_skipped() {
    let r = Release::new(b("i2021"));
    let plan = r.do_links(b"a\nx y z\nc d\n");
    assert_eq!(
        plan,
        vec![
            link("i2021", "a", "a"),
            Action::ReportBadLink(b("x y z")),
            link("i2021", "c", "d"),
        ]
    );
}

#[test]
fn blank_lines_and_crlf() {
    let r = Release::new(b("2021"));
    let plan = r.do_links(b"\n  \r\nlog\r\nu v w x\r\n");
    assert_eq!(plan, vec![link("2021", "log", "log"), Action::ReportBadLink(b("u v w x"))]);
}

#[test]
fn empty_manifest_links_nothing() {
    let r = Release::new(b("2021"));
    assert_eq!(r.do_links(b""), Vec::<Action>::new());
}
