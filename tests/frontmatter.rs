use prs_atom::frontmatter::{lines, parse, trim};

#[test]
fn trim_and_lines_match_std() {
    for s in ["  a b \t", "\u{3000}x\u{85}", "", "   ", "x", "\r\n y \n"] {
        assert_eq!(trim(s), s.trim());
    }
    for s in ["a\r\nb\n\nc\n", "", "\n", "one", "x\ry\r", "a\n\n"] {
        let expected: Vec<String> = s.lines().map(|l| l.to_string()).collect();
        assert_eq!(lines(s), expected);
    }
}

#[test]
fn front_matter_fields() {
    let md = "---\ntitle: Hello: world \nauthor:  Ann\navatar:https://a/x.png\n---\npublished: not here\n# Body";
    let attrs = parse(md);
    assert_eq!(attrs.title, "Hello: world");
    assert_eq!(attrs.author, "Ann");
    assert_eq!(attrs.avatar, "https://a/x.png");
    assert_eq!(attrs.published, "");
}

#[test]
fn front_matter_absent_or_unclosed() {
    let none = parse("# Title\ntitle: x");
    assert_eq!(none.title, "");
    let unclosed = parse(" --- \r\npublished: 2020-01-01\r\ntitle: a\ntitle: b");
    assert_eq!(unclosed.published, "2020-01-01");
    assert_eq!(unclosed.title, "b");
}
