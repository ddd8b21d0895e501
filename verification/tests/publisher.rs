use blog_builder::publisher::{
    classify, date_region, decide, holds, needs_write, Change, DIFF_LIMIT,
};

fn chars(s: &str) -> Vec<char> {
    s.chars().collect()
}

fn same(s: &str) -> Change {
    Change::Same(s.to_string())
}

fn add(s: &str) -> Change {
    Change::Add(s.to_string())
}

fn rem(s: &str) -> Change {
    Change::Rem(s.to_string())
}

const OLD_DATE: &str = "<p class=\"last-updated-date\">Last Updated Monday, January 01, 2024</p>";
const NEW_DATE: &str = "<p class=\"last-updated-date\">Last Updated Tuesday, January 02, 2024</p>";

#[test]
fn holds_finds_a_text_in_another() {
    assert!(holds(&chars("hello world"), &chars("lo w")));
    assert!(holds(&chars("hello"), &chars("hello")));
    assert!(holds(&chars("hello"), &chars("")));
    assert!(holds(&chars(""), &chars("")));
    assert!(holds(&chars("aab"), &chars("ab")));
    assert!(holds(&chars("xyz"), &chars("z")));
    assert!(!holds(&chars("hello"), &chars("hello!")));
    assert!(!holds(&chars("hello"), &chars("ll0")));
    assert!(!holds(&chars(""), &chars("a")));
}

#[test]
fn date_region_is_the_date_line_alone() {
    assert!(date_region(OLD_DATE));
    assert!(date_region("last-updated-date"));
    assert!(date_region("x last-updated-date y"));
    assert!(!date_region("<p>plain</p>"));
    assert!(!date_region("last-updated-dat"));
}

#[test]
fn empty_lines_beside_the_date_line_do_not_count() {
    assert!(date_region("last-updated-date\n"));
    assert!(date_region("\nlast-updated-date"));
    assert!(date_region("\n\nlast-updated-date\n\n"));
    assert!(date_region(&format!("{}\n", OLD_DATE)));
}

#[test]
fn any_other_line_makes_a_change_of_substance() {
    assert!(!date_region("x\nlast-updated-date\ny"));
    assert!(!date_region("x\nlast-updated-date"));
    assert!(!date_region("last-updated-date\ny"));
    assert!(!date_region("last-updated-date\n\nmore"));
    assert!(!date_region("last-updated-date\n \n"));
    assert!(!date_region(&format!("<div class=\"tiles\">\n{}\n</div>", OLD_DATE)));
}

#[test]
fn lines_without_text_are_no_date_region() {
    assert!(!date_region(""));
    assert!(!date_region("\n"));
    assert!(!date_region("\n\n\n"));
}

#[test]
fn two_date_lines_are_a_date_region() {
    assert!(date_region(&format!("{}\n{}", OLD_DATE, NEW_DATE)));
}

#[test]
fn no_changes_mean_no_write() {
    assert!(!classify(&vec![]));
    assert!(!classify(&vec![same("a\nb")]));
    assert!(!classify(&vec![same("a"), same(OLD_DATE)]));
}

#[test]
fn changed_date_text_alone_means_no_write() {
    assert!(!classify(&vec![same("a"), rem(OLD_DATE), add(NEW_DATE), same("b")]));
    assert!(!classify(&vec![rem(OLD_DATE), add(NEW_DATE)]));
}

#[test]
fn new_date_line_means_write() {
    assert!(classify(&vec![same("a"), add(NEW_DATE), same("b")]));
}

#[test]
fn removed_date_line_means_write() {
    assert!(classify(&vec![same("a"), rem(OLD_DATE)]));
}

#[test]
fn three_changes_of_the_date_mean_write() {
    assert!(classify(&vec![rem(OLD_DATE), add(NEW_DATE), same("x"), add(NEW_DATE)]));
}

#[test]
fn date_line_among_other_lines_means_write() {
    let block = format!("<div class=\"topblock\">{}</div>", OLD_DATE);
    let tiles = format!("<div class=\"tiles\">\n{}\n</div>", NEW_DATE);
    assert!(classify(&vec![same("a"), rem(&block), add(&tiles), same("b")]));
    assert!(classify(&vec![rem(&format!("x\n{}", OLD_DATE)), add(&format!("x\n{}", NEW_DATE))]));
    assert!(classify(&vec![add("\n")]));
}

#[test]
fn substance_means_write() {
    assert!(classify(&vec![same("a"), add("<p>new</p>")]));
    assert!(classify(&vec![rem("<p>old</p>")]));
    assert!(classify(&vec![rem(OLD_DATE), add(NEW_DATE), rem("x"), add("y")]));
    assert!(classify(&vec![add("<p>a</p>\n\n<p class=\"last-updated-date\">d</p>")]));
}

#[test]
fn equal_texts_need_no_write() {
    let page = format!("<h1>a</h1>\n\n{}\n\n<p>b</p>\n", OLD_DATE);
    assert!(!needs_write(&page, &page));
    assert!(!needs_write("", ""));
    assert!(!needs_write("one line", "one line"));
}

#[test]
fn date_text_alone_needs_no_write() {
    let before = format!("<h1>a</h1>\n\n{}\n\n<p>b</p>\n", OLD_DATE);
    let after = format!("<h1>a</h1>\n\n{}\n\n<p>b</p>\n", NEW_DATE);
    assert!(!needs_write(&before, &after));
}

#[test]
fn date_line_that_came_needs_a_write() {
    let before = "<h1>a</h1>\n\n<p>b</p>\n".to_string();
    let after = format!("<h1>a</h1>\n\n{}\n\n<p>b</p>\n", NEW_DATE);
    assert!(needs_write(&before, &after));
}

#[test]
fn date_line_that_went_needs_a_write() {
    let before = format!("<h1>a</h1>\n\n{}\n\n<p>b</p>\n", OLD_DATE);
    let after = "<h1>a</h1>\n\n<p>b</p>\n".to_string();
    assert!(needs_write(&before, &after));
}

#[test]
fn changed_text_needs_a_write() {
    let before = format!("<h1>a</h1>\n\n{}\n\n<p>b</p>\n", OLD_DATE);
    let after = format!("<h1>a</h1>\n\n{}\n\n<p>c</p>\n", OLD_DATE);
    assert!(needs_write(&before, &after));
    assert!(needs_write("a\nb", "a\nc"));
    assert!(needs_write("", "a"));
    assert!(needs_write("a", ""));
}

#[test]
fn changed_text_and_date_need_a_write() {
    let before = format!("<h1>a</h1>\n\n{}\n\n<p>b</p>\n", OLD_DATE);
    let after = format!("<h1>z</h1>\n\n{}\n\n<p>b</p>\n", NEW_DATE);
    assert!(needs_write(&before, &after));
}

#[test]
fn block_around_the_date_that_changes_needs_a_write() {
    let before = format!("<h1>a</h1>\n\n<div class=\"topblock\">{}</div>\n\n", OLD_DATE);
    let after = format!("<h1>a</h1>\n\n<div class=\"tiles\">\n{}\n</div>\n\n", OLD_DATE);
    assert!(needs_write(&before, &after));
    assert!(needs_write(&after, &before));
    let later = format!("<h1>a</h1>\n\n<div class=\"tiles\">\n{}\n</div>\n\n", NEW_DATE);
    assert!(needs_write(&before, &later));
    assert!(!needs_write(&after, &later));
}

#[test]
fn nothing_published_means_write() {
    assert_eq!(decide(None, "anything"), Some(true));
    assert_eq!(decide(None, ""), Some(true));
}

#[test]
fn decide_compares_with_what_was_published() {
    let before = format!("<h1>a</h1>\n\n{}\n", OLD_DATE);
    let after = format!("<h1>a</h1>\n\n{}\n", NEW_DATE);
    assert_eq!(decide(Some(&before), &after), Some(false));
    assert_eq!(decide(Some(&before), &before), Some(false));
    assert_eq!(decide(Some(&before), "<h1>b</h1>\n"), Some(true));
}

#[test]
fn the_limit_is_a_quarter_of_the_32_bit_range() {
    assert_eq!(DIFF_LIMIT, 0x3fff_0000);
}
