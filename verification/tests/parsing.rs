use lpadmin::access_control::{
    join_principals, parse_access_control, parse_principals, AccessControl, Principal,
};
use lpadmin::options::{parse_bool, parse_printer_option, parse_u32, PrinterOption, PrinterOptions};

fn user(s: &str) -> Principal {
    Principal::User(s.to_string())
}

fn group(s: &str) -> Principal {
    Principal::Group(s.to_string())
}

#[test]
fn allow_all_and_deny_none() {
    assert_eq!(parse_access_control("allow:all"), Ok(AccessControl::AllowAll));
    assert_eq!(parse_access_control("deny:none"), Ok(AccessControl::DenyNone));
}

#[test]
fn allow_list_of_users_and_groups() {
    assert_eq!(
        parse_access_control("allow:alice, @staff ,bob"),
        Ok(AccessControl::Allow(vec![user("alice"), group("staff"), user("bob")]))
    );
}

#[test]
fn deny_list() {
    assert_eq!(
        parse_access_control("deny:@guests"),
        Ok(AccessControl::Deny(vec![group("guests")]))
    );
}

#[test]
fn keyword_is_exact() {
    // "all" only as the whole list; "deny:all" is a user named "all".
    assert_eq!(parse_access_control("deny:all"), Ok(AccessControl::Deny(vec![user("all")])));
    assert_eq!(parse_access_control("allow:none"), Ok(AccessControl::Allow(vec![user("none")])));
}

#[test]
fn access_control_without_prefix_is_refused() {
    assert_eq!(
        parse_access_control("permit:alice"),
        Err("expected allow:... or deny:..., got: permit:alice".to_string())
    );
    assert_eq!(
        parse_access_control("Allow:alice"),
        Err("expected allow:... or deny:..., got: Allow:alice".to_string())
    );
}

#[test]
fn empty_principal_is_refused() {
    assert_eq!(parse_access_control("allow:"), Err("empty principal".to_string()));
    assert_eq!(parse_access_control("allow:a,,b"), Err("empty principal".to_string()));
    assert_eq!(parse_principals("a, "), Err("empty principal".to_string()));
    assert_eq!(parse_principals(" \t"), Err("empty principal".to_string()));
}

#[test]
fn principals_are_trimmed_including_unicode_space() {
    assert_eq!(parse_principals("\u{a0}carol\u{3000}"), Ok(vec![user("carol")]));
    assert_eq!(parse_principals("@"), Ok(vec![group("")]));
    assert_eq!(parse_principals("@@x"), Ok(vec![group("@x")]));
}

#[test]
fn join_then_parse_gives_back_the_list() {
    let list = vec![user("alice"), group("lp admins"), user("bob")];
    let written = join_principals(&list);
    assert_eq!(written, "alice,@lp admins,bob");
    assert_eq!(parse_principals(&written), Ok(list.clone()));
    assert_eq!(
        parse_access_control(&format!("allow:{written}")),
        Ok(AccessControl::Allow(list.clone()))
    );
    assert_eq!(parse_access_control(&format!("deny:{written}")), Ok(AccessControl::Deny(list)));
}

#[test]
fn join_empty_list() {
    assert_eq!(join_principals(&[]), "");
}

#[test]
fn bool_values() {
    assert_eq!(parse_bool(" TRUE "), Ok(true));
    assert_eq!(parse_bool("False"), Ok(false));
    assert_eq!(parse_bool("yes"), Err("expected true/false/yes/no/on/off, got: yes".to_string()));
    assert_eq!(parse_bool(" on"), Err("expected true/false/yes/no/on/off, got:  on".to_string()));
}

#[test]
fn u32_values() {
    assert_eq!(parse_u32(" 42 "), Ok(42));
    assert_eq!(parse_u32("+7"), Ok(7));
    assert_eq!(parse_u32("0004294967295"), Ok(4294967295));
    assert_eq!(parse_u32("4294967296"), Err("expected integer, got: 4294967296".to_string()));
    assert_eq!(parse_u32("-1"), Err("expected integer, got: -1".to_string()));
    assert_eq!(parse_u32("+"), Err("expected integer, got: +".to_string()));
    assert_eq!(parse_u32(""), Err("expected integer, got: ".to_string()));
    assert_eq!(parse_u32("1 2"), Err("expected integer, got: 1 2".to_string()));
    assert_eq!(parse_u32("١"), Err("expected integer, got: ١".to_string()));
}

#[test]
fn typed_options() {
    assert_eq!(parse_printer_option("cupsIPPSupplies=true"), Ok(PrinterOption::CupsIPPSupplies(true)));
    assert_eq!(parse_printer_option("cupsSNMPSupplies=FALSE"), Ok(PrinterOption::CupsSNMPSupplies(false)));
    assert_eq!(parse_printer_option("printer-is-shared= true"), Ok(PrinterOption::PrinterIsShared(true)));
    assert_eq!(parse_printer_option("job-k-limit=1024"), Ok(PrinterOption::JobKLimit(1024)));
    assert_eq!(parse_printer_option("job-page-limit=10"), Ok(PrinterOption::JobPageLimit(10)));
    assert_eq!(parse_printer_option("job-quota-period=3600"), Ok(PrinterOption::JobQuotaPeriod(3600)));
    assert_eq!(
        parse_printer_option("job-sheets-default=none,none"),
        Ok(PrinterOption::JobSheetsDefault("none,none".to_string()))
    );
    assert_eq!(parse_printer_option("port-monitor=bcp"), Ok(PrinterOption::PortMonitor("bcp".to_string())));
    assert_eq!(
        parse_printer_option("printer-error-policy=abort-job"),
        Ok(PrinterOption::PrinterErrorPolicy("abort-job".to_string()))
    );
    assert_eq!(
        parse_printer_option("printer-op-policy=default"),
        Ok(PrinterOption::PrinterOpPolicy("default".to_string()))
    );
}

#[test]
fn other_option_splits_at_first_equals() {
    assert_eq!(
        parse_printer_option("media-default=a=b"),
        Ok(PrinterOption::Other { key: "media-default".to_string(), value: "a=b".to_string() })
    );
    assert_eq!(
        parse_printer_option("=x"),
        Ok(PrinterOption::Other { key: "".to_string(), value: "x".to_string() })
    );
    // Option names are matched exactly.
    assert_eq!(
        parse_printer_option("Job-K-Limit=5"),
        Ok(PrinterOption::Other { key: "Job-K-Limit".to_string(), value: "5".to_string() })
    );
}

#[test]
fn option_errors() {
    assert_eq!(parse_printer_option("novalue"), Err("expected NAME=VALUE, got: novalue".to_string()));
    assert_eq!(
        parse_printer_option("job-k-limit=lots"),
        Err("expected integer, got: lots".to_string())
    );
    assert_eq!(
        parse_printer_option("printer-is-shared=maybe"),
        Err("expected true/false/yes/no/on/off, got: maybe".to_string())
    );
}

#[test]
fn later_options_win_and_others_keep_order() {
    let opts = PrinterOptions::from(vec![
        PrinterOption::JobKLimit(1),
        PrinterOption::Other { key: "a".to_string(), value: "1".to_string() },
        PrinterOption::PrinterIsShared(false),
        PrinterOption::JobKLimit(2),
        PrinterOption::PortMonitor("none".to_string()),
        PrinterOption::Other { key: "b".to_string(), value: "2".to_string() },
        PrinterOption::PrinterIsShared(true),
    ]);
    assert_eq!(
        opts,
        PrinterOptions {
            cups_ipp_supplies: None,
            cups_snmp_supplies: None,
            printer_is_shared: Some(true),
            job_k_limit: Some(2),
            job_page_limit: None,
            job_quota_period: None,
            job_sheets_default: None,
            port_monitor: Some("none".to_string()),
            printer_error_policy: None,
            printer_op_policy: None,
            other: vec![("a".to_string(), "1".to_string()), ("b".to_string(), "2".to_string())],
        }
    );
}

#[test]
fn no_options_no_settings() {
    assert_eq!(PrinterOptions::from(vec![]), PrinterOptions::default());
    assert_eq!(PrinterOptions::default().other.len(), 0);
    assert_eq!(PrinterOptions::default().job_k_limit, None);
}

#[test]
fn parse_then_join_gives_the_text_back() {
    let text = "alice,@staff,b@b,@";
    let list = parse_principals(text).unwrap();
    assert_eq!(join_principals(&list), text);
}

#[test]
fn options_of_different_kinds_commute() {
    let a = PrinterOption::JobKLimit(3);
    let b = PrinterOption::Other { key: "k".to_string(), value: "v".to_string() };
    let c = PrinterOption::PortMonitor("tbcp".to_string());
    let one = PrinterOptions::from(vec![c.clone(), a.clone(), b.clone()]);
    let two = PrinterOptions::from(vec![c.clone(), b.clone(), a.clone()]);
    assert_eq!(one, two);
    // Options of the same kind do not commute.
    let x = PrinterOption::JobKLimit(4);
    assert_ne!(
        PrinterOptions::from(vec![a.clone(), x.clone()]),
        PrinterOptions::from(vec![x, a])
    );
}
