use dex::cmd_parsing::{command, endpoint, number, range};
use dex::cmd_parsing::Endpoint::{Fixed, Moment, Search};
use dex::cmd_parsing::Range::{DoubledEnded, PastToPresent, Single};

#[test]
fn cmd_no_range() {
    let result = command("d");

    assert_eq!(result, (None, "d"));
}

#[test]
fn past_to_present_cmd() {
    let result = command("5,d");

    assert_eq!(result, (Some(PastToPresent(Fixed(5))), "d"));
}

#[test]
fn double_ended_cmd() {
    let result = command("10,5d");

    assert_eq!(result, (Some(DoubledEnded(Fixed(10), Fixed(5))), "d"));
}

#[test]
fn past_to_present_moment_cmd() {
    let result = command("#5,d");

    assert_eq!(result, (Some(PastToPresent(Moment(5))), "d"));
}

#[test]
fn invalid_moment() {
    let result = command(",#5d");

    assert_eq!(result, (None, ",#5d"));
}

#[test]
fn search_cmd() {
    let result = command("/foo/d");

    assert_eq!(result, (Some(Single(Search("foo".to_string()))), "d"));
}

#[test]
fn search_to_present_cmd() {
    let result = command("/bar/,d");

    assert_eq!(result, (Some(PastToPresent(Search("bar".to_string()))), "d"));
}

#[test]
fn double_ended_search_cmd() {
    let result = command("/foo/,/bar/d");

    assert_eq!(
        result,
        (
            Some(DoubledEnded(
                Search("foo".to_string()),
                Search("bar".to_string())
            )),
            "d"
        )
    );
}

#[test]
fn no_range_cmd() {
    let result = command("d foo bar");

    assert_eq!(result, (None, "d foo bar"));
}

#[test]
fn no_range_cmd_with_slashes() {
    let result = command("d b/ar/");

    assert_eq!(result, (None, "d b/ar/"));
}

#[test]
fn empty_command_line() {
    assert_eq!(command(""), (None, ""));
}

#[test]
fn single_fixed_range() {
    assert_eq!(command("7d"), (Some(Single(Fixed(7))), "d"));
}

#[test]
fn overflowing_ordinal_is_no_range() {
    let line = "99999999999999999999999999d";
    assert_eq!(command(line), (None, line));
}

#[test]
fn empty_search_query() {
    assert_eq!(command("//d"), (Some(Single(Search(String::new()))), "d"));
}

#[test]
fn unterminated_search_is_no_range() {
    assert_eq!(command("/foo"), (None, "/foo"));
}

#[test]
fn number_reads_greedily() {
    assert_eq!(number("12ab", 0), Some((12, 2)));
    assert_eq!(number("ab", 0), None);
    assert_eq!(number("7", 0), Some((7, 1)));
}

#[test]
fn endpoint_tries_fixed_moment_then_search() {
    assert_eq!(endpoint("12,", 0), Some((Fixed(12), 2)));
    assert_eq!(endpoint("#3,", 0), Some((Moment(3), 2)));
    assert_eq!(endpoint("/ab/,", 0), Some((Search("ab".to_string()), 4)));
    assert_eq!(endpoint(",", 0), None);
}

#[test]
fn range_prefers_the_two_sided_form() {
    assert_eq!(range("1,2", 0), Some((DoubledEnded(Fixed(1), Fixed(2)), 3)));
    assert_eq!(range("1,x", 0), Some((PastToPresent(Fixed(1)), 2)));
    assert_eq!(range("1x", 0), Some((Single(Fixed(1)), 1)));
}
