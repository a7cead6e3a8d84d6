use fortune::bytes::{bytes_eq, to_lower};
use fortune::cli::{CliAction, SelectOptions, parse_args};
use fortune::errors::FortuneError;
use fortune::filter::SizeFilter;
use fortune::format::ColorChoice;
use fortune::quote::Quote;

fn v(s: &str) -> Vec<u8> {
    s.as_bytes().to_vec()
}

fn argv(args: &[&str]) -> Vec<Vec<u8>> {
    args.iter().map(|a| v(a)).collect()
}

fn defaults() -> SelectOptions {
    SelectOptions {
        size: SizeFilter::Any,
        color: ColorChoice::NoColor,
        size_notice: false,
        third_slot_notice: false,
    }
}

#[test]
fn no_arguments_select_with_defaults() {
    assert_eq!(parse_args(&argv(&["prog"])), CliAction::Select(defaults()));
}

#[test]
fn help_aliases_dispatch_help() {
    assert_eq!(parse_args(&argv(&["prog", "help"])), CliAction::Help);
    assert_eq!(parse_args(&argv(&["prog", "-help"])), CliAction::Help);
    assert_eq!(parse_args(&argv(&["prog", "-h"])), CliAction::Help);
    assert_eq!(parse_args(&argv(&["prog", "-HELP"])), CliAction::Help);
}

#[test]
fn write_aliases_dispatch_write() {
    assert_eq!(parse_args(&argv(&["prog", "write"])), CliAction::Write);
    assert_eq!(parse_args(&argv(&["prog", "-write"])), CliAction::Write);
    assert_eq!(parse_args(&argv(&["prog", "-Write"])), CliAction::Write);
}

#[test]
fn unknown_primary_command_is_rejected() {
    assert_eq!(parse_args(&argv(&["prog", "frobnicate"])), CliAction::Unknown);
    assert_eq!(parse_args(&argv(&["prog", "--size"])), CliAction::Unknown);
}

#[test]
fn size_values_select_the_filter() {
    assert_eq!(
        parse_args(&argv(&["prog", "-size", "short"])),
        CliAction::Select(SelectOptions { size: SizeFilter::Short, ..defaults() })
    );
    assert_eq!(
        parse_args(&argv(&["prog", "size", "MEDIUM"])),
        CliAction::Select(SelectOptions { size: SizeFilter::Medium, ..defaults() })
    );
    assert_eq!(
        parse_args(&argv(&["prog", "-o", "Long"])),
        CliAction::Select(SelectOptions { size: SizeFilter::Long, ..defaults() })
    );
}

#[test]
fn unrecognized_size_value_keeps_default_with_notice() {
    assert_eq!(
        parse_args(&argv(&["prog", "-size", "tiny"])),
        CliAction::Select(SelectOptions { size_notice: true, ..defaults() })
    );
}

#[test]
fn size_command_without_value_keeps_default_silently() {
    assert_eq!(parse_args(&argv(&["prog", "-size"])), CliAction::Select(defaults()));
}

#[test]
fn color_slot_selects_the_color() {
    assert_eq!(
        parse_args(&argv(&["prog", "-size", "short", "-color", "red"])),
        CliAction::Select(
            SelectOptions { size: SizeFilter::Short, color: ColorChoice::Red, ..defaults() }
        )
    );
    assert_eq!(
        parse_args(&argv(&["prog", "-o", "long", "-c", "CYAN"])),
        CliAction::Select(
            SelectOptions { size: SizeFilter::Long, color: ColorChoice::Cyan, ..defaults() }
        )
    );
    assert_eq!(
        parse_args(&argv(&["prog", "-size", "medium", "color", "magenta"])),
        CliAction::Select(
            SelectOptions { size: SizeFilter::Medium, color: ColorChoice::Magenta, ..defaults() }
        )
    );
}

#[test]
fn unrecognized_color_name_falls_back_to_no_color() {
    assert_eq!(
        parse_args(&argv(&["prog", "-size", "short", "-color", "mauve"])),
        CliAction::Select(SelectOptions { size: SizeFilter::Short, ..defaults() })
    );
}

#[test]
fn third_slot_that_is_not_the_color_command_gives_a_notice() {
    assert_eq!(
        parse_args(&argv(&["prog", "-size", "short", "-paint", "red"])),
        CliAction::Select(
            SelectOptions { size: SizeFilter::Short, third_slot_notice: true, ..defaults() }
        )
    );
}

#[test]
fn quote_init_has_defaults() {
    let q = Quote::init(vec![v("a"), v("b")]);
    assert!(q.quote.is_empty());
    assert_eq!(q.data, vec![v("a"), v("b")]);
    assert_eq!(q.size, SizeFilter::Any);
    assert_eq!(q.color, ColorChoice::NoColor);
}

#[test]
fn quote_get_quote_draws_from_the_filtered_records() {
    let mut q = Quote::init(vec![v("aa"), vec![b'y'; 300], v("bb")]);
    q.size = SizeFilter::Short;
    q.get_quote().unwrap();
    assert!(q.quote == v("aa") || q.quote == v("bb"));
}

#[test]
fn quote_get_quote_fails_on_empty_subset() {
    let mut q = Quote::init(vec![v("aa")]);
    q.size = SizeFilter::Long;
    assert_eq!(q.get_quote(), Err(FortuneError::EmptySelectionFailure));
    assert!(q.quote.is_empty());
}

#[test]
fn quote_color_wraps_only_when_a_color_is_set() {
    let mut q = Quote::init(vec![v("aa")]);
    q.quote = v("aa");
    assert_eq!(q.color(), None);
    q.color = ColorChoice::Red;
    assert_eq!(q.color(), Some(v("\x1B[31maa\x1B[0m")));
}

#[test]
fn quote_output_renders_the_drawn_quote() {
    let mut q = Quote::init(vec![v("zz")]);
    q.color = ColorChoice::Blue;
    let out = q.output().unwrap();
    assert_eq!(out, v("\x1B[34mzz\x1B[0m"));
}

#[test]
fn quote_output_fails_on_empty_database() {
    let mut q = Quote::init(Vec::new());
    assert_eq!(q.output(), Err(FortuneError::EmptySelectionFailure));
}

#[test]
fn to_lower_folds_ascii_letters_only() {
    assert_eq!(to_lower(&v("HeLp-123_%")), v("help-123_%"));
}

#[test]
fn bytes_eq_compares_contents() {
    assert!(bytes_eq(v("abc").as_slice(), v("abc").as_slice()));
    assert!(!bytes_eq(v("abc").as_slice(), v("abd").as_slice()));
    assert!(!bytes_eq(v("abc").as_slice(), v("ab").as_slice()));
}
