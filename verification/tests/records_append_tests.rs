use fortune::append::{prepare_append, trim_bytes};
use fortune::errors::FortuneError;
use fortune::filter::SizeFilter;
use fortune::records::{load_records, split_content};
use fortune::select::select;

fn v(s: &str) -> Vec<u8> {
    s.as_bytes().to_vec()
}

#[test]
fn split_content_on_separator() {
    let pieces = split_content(&v("A\n%\nBBBB"));
    assert_eq!(pieces, vec![v("A"), v("BBBB")]);
}

#[test]
fn split_without_separator_is_one_piece() {
    assert_eq!(split_content(&v("hello")), vec![v("hello")]);
}

#[test]
fn split_empty_content_is_one_empty_piece() {
    assert_eq!(split_content(&v("")), vec![v("")]);
}

#[test]
fn split_with_trailing_separator_has_empty_last_piece() {
    assert_eq!(split_content(&v("A\n%\n")), vec![v("A"), v("")]);
}

#[test]
fn split_consumes_leftmost_separator_first() {
    assert_eq!(split_content(&v("\n%\n%\n")), vec![v(""), v("%\n")]);
}

#[test]
fn load_drops_only_the_trailing_empty_piece() {
    assert_eq!(load_records(&v("A\n%\nB")), vec![v("A"), v("B")]);
    assert_eq!(load_records(&v("A\n%\nB\n%\n")), vec![v("A"), v("B")]);
    assert_eq!(load_records(&v("A\n%\n\n%\nB")), vec![v("A"), v(""), v("B")]);
}

#[test]
fn load_empty_content_is_zero_records() {
    assert_eq!(load_records(&v("")), Vec::<Vec<u8>>::new());
}

#[test]
fn records_preserve_surrounding_whitespace() {
    assert_eq!(load_records(&v(" A \n%\n\tB")), vec![v(" A "), v("\tB")]);
}

#[test]
fn medium_filter_on_two_short_records_fails_selection() {
    let records = load_records(&v("A\n%\nBBBB"));
    assert_eq!(records, vec![v("A"), v("BBBB")]);
    let r = select(&records, SizeFilter::Medium);
    assert_eq!(r, Err(FortuneError::EmptySelectionFailure));
}

#[test]
fn trim_removes_surrounding_whitespace() {
    assert_eq!(trim_bytes(&v("  a quote \n")), v("a quote"));
    assert_eq!(trim_bytes(&v("\t\r\nx")), v("x"));
    assert_eq!(trim_bytes(&v("x")), v("x"));
    assert_eq!(trim_bytes(&v("")), v(""));
    assert_eq!(trim_bytes(&v(" a  b ")), v("a  b"));
    assert_eq!(trim_bytes(&v("\x0Bx\x0B")), v("x"));
}

#[test]
fn prepare_append_adds_separator_after_trimmed_quote() {
    let out = prepare_append(&v("A\n%\n"), &v("T\n")).unwrap();
    assert_eq!(out, v("T\n%\n"));
}

#[test]
fn prepare_append_leads_with_a_separator_on_an_open_last_record() {
    let out = prepare_append(&v("A\n%\nB"), &v("T\n")).unwrap();
    assert_eq!(out, v("\n%\nT\n%\n"));
}

#[test]
fn prepare_append_refuses_whitespace_only_input() {
    assert_eq!(prepare_append(&v(""), &v("   \n")), None);
    assert_eq!(prepare_append(&v("A"), &v("")), None);
    assert_eq!(prepare_append(&v("A\n%\n"), &v("\t\r\n \x0B")), None);
}

#[test]
fn append_then_reload_extends_the_records_by_one() {
    let mut content = v("A\n%\nB\n%\n");
    let before = load_records(&content);
    assert_eq!(before, vec![v("A"), v("B")]);
    let mut added = prepare_append(&content, &v("T\n")).unwrap();
    content.append(&mut added);
    let after = load_records(&content);
    assert_eq!(after, vec![v("A"), v("B"), v("T")]);
}

#[test]
fn append_to_unterminated_database_keeps_the_old_records_intact() {
    let mut content = v("A\n%\nB");
    assert_eq!(load_records(&content), vec![v("A"), v("B")]);
    let mut added = prepare_append(&content, &v("T\n")).unwrap();
    content.append(&mut added);
    assert_eq!(load_records(&content), vec![v("A"), v("B"), v("T")]);
}

#[test]
fn append_to_empty_database_yields_one_record() {
    let mut content = v("");
    let mut added = prepare_append(&content, &v("T")).unwrap();
    content.append(&mut added);
    assert_eq!(load_records(&content), vec![v("T")]);
}
