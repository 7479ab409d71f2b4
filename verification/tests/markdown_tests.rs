use gwm_tui::markdown::{render, Emphasis, MdLine, Segment};

fn seg(text: &str, e: Emphasis) -> Segment {
    Segment::new(text.to_string(), e)
}

fn plains(lines: &[MdLine]) -> Vec<String> {
    lines.iter().map(|l| l.plain()).collect()
}

#[test]
fn heading_gets_an_underline() {
    let out = render("## Description", 80);
    assert_eq!(out.len(), 2);
    assert_eq!(out[0].segments, vec![seg("Description", Emphasis::Heading)]);
    assert_eq!(out[1].segments, vec![seg(&"─".repeat(11), Emphasis::Marker)]);
    let deep = render("### Notes", 80);
    assert_eq!(deep.len(), 1);
    assert_eq!(render("#tag", 80)[0].plain(), "#tag");
}

#[test]
fn emphasis_and_nesting() {
    let out = render("**bold** and *it*", 80);
    assert_eq!(
        out[0].segments,
        vec![seg("bold", Emphasis::Bold), seg(" and ", Emphasis::Plain), seg("it", Emphasis::Italic)]
    );
    let nested = render("**bold _and_ italic**", 80);
    assert_eq!(
        nested[0].segments,
        vec![seg("bold ", Emphasis::Bold), seg("and", Emphasis::BoldItalic), seg(" italic", Emphasis::Bold)]
    );
    assert_eq!(render("~~gone~~", 80)[0].segments, vec![seg("gone", Emphasis::Strike)]);
    assert_eq!(render("`a*b`", 80)[0].segments, vec![seg("a*b", Emphasis::Code)]);
    assert_eq!(render("[site](http://x_y)", 80)[0].segments, vec![seg("site", Emphasis::Link)]);
}

#[test]
fn literal_delimiters_stay_literal() {
    assert_eq!(render("**bold **", 80)[0].segments, vec![seg("**bold **", Emphasis::Plain)]);
    assert_eq!(render("2 * 3 and file_name", 80)[0].plain(), "2 * 3 and file_name");
    assert_eq!(render("\\*not\\*", 80)[0].plain(), "*not*");
    assert_eq!(render("~/home", 80)[0].plain(), "~/home");
}

#[test]
fn fenced_block_is_verbatim() {
    let out = render("```\nlet x = 1;\n   indented **no**\n```\nafter", 8);
    assert_eq!(out.len(), 3);
    assert!(out[0].preformatted && out[1].preformatted && !out[2].preformatted);
    assert_eq!(out[0].segments, vec![seg("let x = 1;", Emphasis::Code)]);
    assert_eq!(out[1].segments, vec![seg("   indented **no**", Emphasis::Code)]);
    assert_eq!(out[2].plain(), "after");
    let nested = render("````\n```\ninner\n```\n````", 80);
    assert_eq!(plains(&nested), vec!["```", "inner", "```"]);
}

#[test]
fn comments_are_dropped() {
    let out = render("<!-- hidden -->\nshown", 80);
    assert_eq!(plains(&out), vec!["shown"]);
    assert_eq!(render("a <!-- x --> b", 80)[0].plain(), "a  b");
    let multi = render("before <!-- start\nstill hidden\nend --> after", 80);
    assert_eq!(plains(&multi), vec!["before ", " after"]);
    assert_eq!(render("`<!-- kept -->`", 80)[0].segments, vec![seg("<!-- kept -->", Emphasis::Code)]);
}

#[test]
fn lists_quotes_and_alerts() {
    assert_eq!(
        render("- [x] done", 80)[0].segments,
        vec![seg("• ☑ ", Emphasis::Marker), seg("done", Emphasis::Plain)]
    );
    assert_eq!(
        render("1. one", 80)[0].segments,
        vec![seg("1. ", Emphasis::Marker), seg("one", Emphasis::Plain)]
    );
    assert_eq!(
        render("12) [ ] later", 80)[0].segments,
        vec![seg("12) ☐ ", Emphasis::Marker), seg("later", Emphasis::Plain)]
    );
    assert_eq!(render("1.item", 80)[0].plain(), "1.item");
    assert_eq!(
        render("> [!note]", 80)[0].segments,
        vec![seg("▎ ", Emphasis::Marker), seg("NOTE", Emphasis::Heading)]
    );
    assert_eq!(
        render("> quoted *x*", 80)[0].segments,
        vec![seg("▎ ", Emphasis::Marker), seg("quoted ", Emphasis::Quote), seg("x", Emphasis::Italic)]
    );
    assert_eq!(render("---", 80)[0].plain(), "─".repeat(40));
    assert_eq!(render("***", 10)[0].plain(), "─".repeat(10));
}

#[test]
fn wrapping_respects_the_budget() {
    let out = render("aaa bbb ccc", 9);
    assert_eq!(plains(&out), vec!["aaa bbb ", "ccc"]);
    let split = render("abcdefghijkl", 5);
    assert_eq!(plains(&split), vec!["abcde", "fghij", "kl"]);
    let item = render("- alpha beta gamma delta", 16);
    assert_eq!(plains(&item), vec!["• alpha beta ", "  gamma delta"]);
    for l in render("word ".repeat(30).as_str(), 17) {
        assert!(l.plain().chars().count() <= 17);
    }
    let spaced = render("a    b", 80);
    assert_eq!(spaced[0].plain(), "a    b");
}

#[test]
fn tabs_blanks_and_empty_bodies() {
    let out = render("\tx", 80);
    assert_eq!(out[0].segments, vec![seg("    ", Emphasis::Marker), seg("x", Emphasis::Plain)]);
    assert!(render("", 80).is_empty());
    let blank = render(" \r\nnext\r\n", 80);
    assert_eq!(blank.len(), 2);
    assert!(blank[0].segments.is_empty());
    assert_eq!(blank[1].plain(), "next");
    assert_eq!(render("x", 0)[0].plain(), "x");
}

#[test]
fn chips_are_badges() {
    let c = Segment::chip(" open ".to_string(), Emphasis::Success);
    assert!(c.chip);
    assert!(!seg("a", Emphasis::Plain).chip);
    let line = MdLine { segments: vec![c, seg("x", Emphasis::Muted)], preformatted: false };
    assert_eq!(line.plain(), " open x");
}

#[test]
fn fence_lines_and_comment_only_lines_leave_no_row() {
    let out = render("<!-- summarize by bot -->\n```rust\nlet x = 1;\n```\nafter", 80);
    assert_eq!(plains(&out), vec!["let x = 1;".to_string(), "after".to_string()]);
    assert!(out[0].preformatted);
    assert!(!out[1].preformatted);
}

#[test]
fn fenced_lines_come_out_once_each_in_order() {
    let out = render("```\nb\n  a\n# not a heading\n```", 80);
    assert_eq!(plains(&out), vec!["b".to_string(), "  a".to_string(), "# not a heading".to_string()]);
    assert!(out.iter().all(|l| l.preformatted));
}
