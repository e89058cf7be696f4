use game_of_life::report::{address_report, report_line, report_target, rest_call_runcount};

#[test]
fn report_target_writes_both_numbers_in_decimal() {
    assert_eq!(report_target(0, 0), "http://127.0.0.1:3000/runcount/0/0");
    assert_eq!(report_target(7, 10), "http://127.0.0.1:3000/runcount/7/10");
    assert_eq!(report_target(1203, 90), "http://127.0.0.1:3000/runcount/1203/90");
    assert_eq!(
        report_target(4294967295, 1000000000),
        "http://127.0.0.1:3000/runcount/4294967295/1000000000"
    );
}

#[test]
fn report_line_is_the_serialization_or_a_notice() {
    assert_eq!(report_line(Some(String::from("http://example.net/"))), "http://example.net/");
    assert_eq!(report_line(None), "There was an error");
}

#[test]
fn rest_call_runcount_gives_the_parsed_address() {
    assert_eq!(rest_call_runcount(1, 10), "http://127.0.0.1:3000/runcount/1/10");
    assert_eq!(rest_call_runcount(40, 0), "http://127.0.0.1:3000/runcount/40/0");
    let parsed = url::Url::parse(&report_target(12, 34)).map(String::from).ok();
    assert_eq!(rest_call_runcount(12, 34), report_line(parsed));
}

#[test]
fn address_report_serializes_what_parses() {
    assert_eq!(address_report("HTTP://Example.NET"), "http://example.net/");
    assert_eq!(address_report("http://127.0.0.1:3000/a/../b"), "http://127.0.0.1:3000/b");
    assert_eq!(address_report("http://127.0.0.1:80/runcount/1/2"), "http://127.0.0.1/runcount/1/2");
}

#[test]
fn address_report_gives_the_notice_for_what_does_not_parse() {
    assert_eq!(address_report("no address at all"), "There was an error");
    assert_eq!(address_report(""), "There was an error");
    assert_eq!(address_report("/runcount/1/2"), "There was an error");
}
