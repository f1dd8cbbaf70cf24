use chapter_export::address::{join_url, server_address};
use chapter_export::moment::{choose_log_time, export_log_line_at, log_time_text, title_suffix};
use chapter_export::step::ExportStep;

#[test]
fn path_is_joined_to_the_address_of_the_server() {
    let joined = join_url("http://localhost:4567", "/api/graphql").unwrap();
    assert_eq!(joined.as_str(), "http://localhost:4567/api/graphql");
    let joined = join_url("http://host:4567/base/", "api/v1/manga/7/chapter/3/page/12").unwrap();
    assert_eq!(joined.as_str(), "http://host:4567/base/api/v1/manga/7/chapter/3/page/12");
    let joined = join_url("https://example.net/a/b.html", "c.png").unwrap();
    assert_eq!(joined.as_str(), "https://example.net/a/c.png");
    let joined = join_url("https://alice.com/a", "http://eve.com/b").unwrap();
    assert_eq!(joined.as_str(), "http://eve.com/b");
}

#[test]
fn text_that_is_no_address_is_refused() {
    assert_eq!(
        join_url("localhost:4567/x y", "//"),
        Err(url::ParseError::RelativeUrlWithCannotBeABaseBase)
    );
    assert_eq!(join_url("not an address", "/api"), Err(url::ParseError::RelativeUrlWithoutBase));
    assert_eq!(join_url("", "/api"), Err(url::ParseError::RelativeUrlWithoutBase));
    assert_eq!(join_url("http://host", "http://[::1"), Err(url::ParseError::InvalidIpv6Address));
}

#[test]
fn address_on_the_configured_server_is_written_out() {
    assert_eq!(
        server_address(Some("http://localhost:4567"), "/api/graphql"),
        Some("http://localhost:4567/api/graphql".to_string())
    );
    assert_eq!(server_address(None, "/api/graphql"), None);
    assert_eq!(server_address(Some("nonsense"), "/api/graphql"), None);
}

#[test]
fn moment_is_written_as_rfc_3339_writes_it() {
    assert_eq!(log_time_text(0), Some("1970-01-01T00:00:00Z".to_string()));
    assert_eq!(
        log_time_text(1_700_000_000_123_456_789),
        Some("2023-11-14T22:13:20.123456789Z".to_string())
    );
    assert_eq!(log_time_text(-1_000_000_000), Some("1969-12-31T23:59:59Z".to_string()));
    assert_eq!(log_time_text(i128::MAX), None);
    assert_eq!(log_time_text(i128::MIN), None);
}

#[test]
fn moment_that_rfc_3339_cannot_write_is_displayed() {
    let year_minus_one = -62_198_755_200_000_000_000_i128;
    assert_eq!(log_time_text(year_minus_one), title_suffix(year_minus_one));
    assert_eq!(
        title_suffix(year_minus_one),
        Some("-0001-01-01 0:00:00.0 +00:00:00".to_string())
    );
}

#[test]
fn time_of_a_log_entry_is_chosen_from_the_two_ways_of_writing_it() {
    let a = || Some("a".to_string());
    let b = || Some("b".to_string());
    assert_eq!(choose_log_time(a(), b()), a());
    assert_eq!(choose_log_time(a(), None), a());
    assert_eq!(choose_log_time(None, b()), b());
    assert_eq!(choose_log_time(None, None), None);
}

#[test]
fn log_line_carries_the_moment_of_the_entry() {
    assert_eq!(
        export_log_line_at(1_700_000_000_000_000_000, 3, ExportStep::AssemblingFile, "Step completed"),
        Some("[2023-11-14T22:13:20Z] export 3, step Assembling file, message Step completed".to_string())
    );
    assert_eq!(export_log_line_at(i128::MAX, 3, ExportStep::Begin, "m"), None);
}

#[test]
fn taken_title_is_told_apart_by_the_moment_of_creation() {
    assert_eq!(title_suffix(0), Some("1970-01-01 0:00:00.0 +00:00:00".to_string()));
    assert_eq!(
        title_suffix(1_700_000_000_123_456_789),
        Some("2023-11-14 22:13:20.123456789 +00:00:00".to_string())
    );
    assert_eq!(title_suffix(i128::MAX), None);
}
