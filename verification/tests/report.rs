use obsctl::region::RegionError;
use obsctl::response::{
    log_api_response, response_report, single_shot_outcome, ReportBody, ReportLevel,
    ResponseReport,
};
use obsctl::setup::set_basic_configs;

fn report(level: ReportLevel, body: ReportBody) -> ResponseReport {
    ResponseReport { level, body }
}

#[test]
fn success_is_information_and_anything_else_a_warning() {
    assert_eq!(log_api_response(200, None, "x").level, ReportLevel::Info);
    assert_eq!(log_api_response(204, None, "").level, ReportLevel::Info);
    assert_eq!(log_api_response(299, Some(3), "x").level, ReportLevel::Info);
    assert_eq!(log_api_response(199, None, "x").level, ReportLevel::Warn);
    assert_eq!(log_api_response(300, None, "x").level, ReportLevel::Warn);
    assert_eq!(log_api_response(404, Some(0), "x").level, ReportLevel::Warn);
    assert_eq!(log_api_response(500, None, "").level, ReportLevel::Warn);
}

#[test]
fn blank_body_is_reported_as_empty_whatever_was_read() {
    for body in ["", " ", "\n", " \t\r\n ", "\u{a0}\u{2003}"] {
        for rows in [None, Some(0), Some(5)] {
            assert_eq!(
                log_api_response(200, rows, body),
                report(ReportLevel::Info, ReportBody::NoText)
            );
        }
    }
}

#[test]
fn listing_is_shown_as_a_table_unless_it_is_empty() {
    assert_eq!(
        log_api_response(200, Some(0), "<r/>"),
        report(ReportLevel::Info, ReportBody::NoEntries)
    );
    assert_eq!(
        log_api_response(200, Some(1), "<r/>"),
        report(ReportLevel::Info, ReportBody::Table)
    );
    assert_eq!(
        log_api_response(403, Some(usize::MAX), " <r/> "),
        report(ReportLevel::Warn, ReportBody::Table)
    );
}

#[test]
fn other_bodies_are_shown_as_they_came() {
    assert_eq!(log_api_response(200, None, "ok"), report(ReportLevel::Info, ReportBody::Raw));
    assert_eq!(
        log_api_response(409, None, " <Error/> "),
        report(ReportLevel::Warn, ReportBody::Raw)
    );
}

#[test]
fn setup_writes_the_lines_for_both_shells() {
    let plan = set_basic_configs("my-ak", "my-sk", "santiago").unwrap();
    assert_eq!(plan.region, "la-south-2");
    assert_eq!(
        plan.unix_lines,
        "\nexport HUAWEICLOUD_SDK_AK=\"my-ak\"\n\
         export HUAWEICLOUD_SDK_SK=\"my-sk\"\n\
         export HUAWEICLOUD_SDK_REGION=\"la-south-2\"\n"
    );
    assert_eq!(
        plan.windows_lines,
        "\n[Environment]::SetEnvironmentVariable(\"HUAWEICLOUD_SDK_AK\", \"my-ak\", \"User\")\n\
         [Environment]::SetEnvironmentVariable(\"HUAWEICLOUD_SDK_SK\", \"my-sk\", \"User\")\n\
         [Environment]::SetEnvironmentVariable(\"HUAWEICLOUD_SDK_REGION\", \"la-south-2\", \"User\")\n"
    );
}

#[test]
fn setup_matches_the_region_as_any_other_command_does() {
    assert_eq!(set_basic_configs("a", "s", "cn-north-4").unwrap().region, "cn-north-4");
    assert_eq!(set_basic_configs("a", "s", "beijin").unwrap().region, "cn-north-4");
    assert_eq!(set_basic_configs("a", "s", "nowhere-at-all").err(), Some(RegionError::NoCloseMatch));
}

#[test]
fn setup_keeps_the_keys_as_they_are() {
    let plan = set_basic_configs("", "a \"quoted\" $key", "riyadh").unwrap();
    assert!(plan.unix_lines.contains("export HUAWEICLOUD_SDK_AK=\"\"\n"));
    assert!(plan.unix_lines.contains("export HUAWEICLOUD_SDK_SK=\"a \"quoted\" $key\"\n"));
    assert!(plan.windows_lines.contains("(\"HUAWEICLOUD_SDK_SK\", \"a \"quoted\" $key\", \"User\")"));
}

#[test]
fn report_of_each_kind_of_answer() {
    assert_eq!(response_report(200, Some(2), true), report(ReportLevel::Info, ReportBody::NoText));
    assert_eq!(response_report(500, None, true), report(ReportLevel::Warn, ReportBody::NoText));
    assert_eq!(
        response_report(200, Some(0), false),
        report(ReportLevel::Info, ReportBody::NoEntries)
    );
    assert_eq!(response_report(200, Some(2), false), report(ReportLevel::Info, ReportBody::Table));
    assert_eq!(response_report(404, None, false), report(ReportLevel::Warn, ReportBody::Raw));
}

#[test]
fn single_request_fails_on_any_status_but_success() {
    for status in [200u16, 201, 204, 299] {
        assert_eq!(single_shot_outcome(status), Ok(()));
    }
    for status in [0u16, 100, 199, 300, 301, 400, 403, 404, 409, 500, 503, 65535] {
        assert_eq!(single_shot_outcome(status), Err(status));
    }
}
