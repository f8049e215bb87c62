use lpadmin::access_control::{AccessControl, Principal};
use lpadmin::ipp::{
    add_class_member, add_or_modify_printer_request, class_change_request, class_members_detail_request,
    class_members_request, class_name_check, class_removal, class_uri, delete_option_request, delete_printer_request,
    enable_printer_requests, eq_ignore_ascii_case, is_class, printer_type_request, printer_uri,
    set_default_printer_request, validate_name, AdminRequest, AttrGroup, AttrValue, ClassChange,
    IppAttr, IppOp,
};
use lpadmin::options::{PrinterOption, PrinterOptions};

fn attr(group: AttrGroup, name: &str, value: AttrValue) -> IppAttr {
    IppAttr { group, name: name.to_string(), value }
}

fn target(uri: &str) -> IppAttr {
    attr(AttrGroup::Operation, "printer-uri", AttrValue::Uri(uri.to_string()))
}

fn strings(v: &[&str]) -> Vec<String> {
    v.iter().map(|s| s.to_string()).collect()
}

#[test]
fn names_are_validated_up_to_the_at_sign() {
    assert!(validate_name("office"));
    assert!(validate_name("Office_2-b.c"));
    assert!(!validate_name("my printer"));
    assert!(!validate_name("a/b"));
    assert!(!validate_name("a\\b"));
    assert!(!validate_name("a?b"));
    assert!(!validate_name("a'b"));
    assert!(!validate_name("a\"b"));
    assert!(!validate_name("a#b"));
    assert!(!validate_name("a\u{7f}"));
    assert!(!validate_name("tab\there"));
    assert!(validate_name("office@host with space"));
    assert!(validate_name(""));
    assert!(validate_name(&"x".repeat(127)));
    assert!(!validate_name(&"x".repeat(128)));
    assert!(validate_name(&format!("{}@{}", "x".repeat(127), "y".repeat(300))));
    assert!(validate_name("imprimante-é"));
}

#[test]
fn uris() {
    assert_eq!(printer_uri("lp1"), "ipp://localhost/printers/lp1");
    assert_eq!(class_uri("all"), "ipp://localhost/classes/all");
}

#[test]
fn simple_admin_requests() {
    let expect = |op: IppOp, label: &str| AdminRequest {
        operation: op,
        standard_attrs: true,
        attrs: vec![target("ipp://localhost/printers/lp1")],
        resource: "/admin/".to_string(),
        label: label.to_string(),
    };
    assert_eq!(set_default_printer_request("lp1"), expect(IppOp::CupsSetDefault, "CUPS-SET-DEFAULT"));
    assert_eq!(delete_printer_request("lp1"), expect(IppOp::CupsDeletePrinter, "CUPS-DELETE-PRINTER"));
    let (enable, resume) = enable_printer_requests("lp1");
    assert_eq!(enable, expect(IppOp::EnablePrinter, "IPP-ENABLE-PRINTER"));
    assert_eq!(resume, expect(IppOp::ResumePrinter, "IPP-RESUME-PRINTER"));
}

#[test]
fn add_or_modify_request_in_order() {
    let opts = PrinterOptions::from(vec![
        PrinterOption::JobSheetsDefault("none".to_string()),
        PrinterOption::JobKLimit(3000000000),
        PrinterOption::CupsIPPSupplies(true),
        PrinterOption::Other { key: "media".to_string(), value: "a4".to_string() },
    ]);
    let access = vec![
        AccessControl::Allow(vec![Principal::User("al".to_string()), Principal::Group("g".to_string())]),
        AccessControl::DenyNone,
    ];
    let r = add_or_modify_printer_request(
        "lp1",
        Some("socket://10.0.0.1"),
        Some("everywhere"),
        None,
        Some("Room 1"),
        &opts,
        &access,
    );
    assert_eq!(
        r,
        AdminRequest {
            operation: IppOp::CupsAddModifyPrinter,
            standard_attrs: true,
            attrs: vec![
                target("ipp://localhost/printers/lp1"),
                attr(AttrGroup::Printer, "device-uri", AttrValue::Uri("socket://10.0.0.1".to_string())),
                attr(AttrGroup::Printer, "ppd-name", AttrValue::Name("everywhere".to_string())),
                attr(AttrGroup::Printer, "printer-location", AttrValue::Text("Room 1".to_string())),
                attr(AttrGroup::Printer, "cupsIPPSupplies", AttrValue::Boolean(true)),
                attr(AttrGroup::Printer, "job-k-limit", AttrValue::Integer(3000000000u32 as i32)),
                attr(AttrGroup::Printer, "job-sheets-default", AttrValue::Name("none".to_string())),
                attr(
                    AttrGroup::Operation,
                    "requesting-user-name-allowed",
                    AttrValue::Name("al,@g".to_string())
                ),
                attr(AttrGroup::Operation, "requesting-user-name-denied", AttrValue::Name("none".to_string())),
            ],
            resource: "/admin/".to_string(),
            label: "CUPS-ADD-MODIFY-PRINTER".to_string(),
        }
    );
}

#[test]
fn add_or_modify_request_with_description_only() {
    let r = add_or_modify_printer_request(
        "p",
        None,
        None,
        Some("Laser"),
        None,
        &PrinterOptions::default(),
        &[AccessControl::AllowAll],
    );
    assert_eq!(
        r.attrs,
        vec![
            target("ipp://localhost/printers/p"),
            attr(AttrGroup::Printer, "printer-info", AttrValue::Text("Laser".to_string())),
            attr(AttrGroup::Operation, "requesting-user-name-allowed", AttrValue::Name("all".to_string())),
        ]
    );
}

#[test]
fn class_member_added_once() {
    let existing = strings(&["ipp://localhost/printers/a"]);
    let once = add_class_member(Some(existing), "b");
    assert_eq!(once, strings(&["ipp://localhost/printers/a", "ipp://localhost/printers/b"]));
    let twice = add_class_member(Some(once.clone()), "b");
    assert_eq!(twice, once);
    assert_eq!(add_class_member(Some(vec![]), "a"), strings(&["ipp://localhost/printers/a"]));
    assert_eq!(add_class_member(None, "a"), strings(&["ipp://localhost/printers/a"]));
}

#[test]
fn class_names_are_checked() {
    assert_eq!(class_name_check("office"), Ok(()));
    assert_eq!(
        class_name_check("my class"),
        Err("lpadmin-rs: Class name can only contain printable characters.".to_string())
    );
}

#[test]
fn class_queries() {
    assert_eq!(
        class_members_request("c", "root"),
        AdminRequest {
            operation: IppOp::GetPrinterAttributes,
            standard_attrs: false,
            attrs: vec![
                target("ipp://localhost/classes/c"),
                attr(AttrGroup::Operation, "requesting-user-name", AttrValue::Name("root".to_string())),
            ],
            resource: "/".to_string(),
            label: "GET-PRINTER-ATTRIBUTES".to_string(),
        }
    );
    assert_eq!(
        class_members_detail_request("c").attrs,
        vec![
            target("ipp://localhost/classes/c"),
            attr(
                AttrGroup::Operation,
                "requested-attributes",
                AttrValue::Keywords(strings(&["member-names", "member-uris"]))
            ),
        ]
    );
    assert_eq!(
        printer_type_request("p").attrs,
        vec![
            target("ipp://localhost/printers/p"),
            attr(AttrGroup::Operation, "requested-attributes", AttrValue::Keyword("printer-type".to_string())),
        ]
    );
}

#[test]
fn class_removal_cases() {
    let names = strings(&["alpha", "Beta", "gamma"]);
    let uris = strings(&["u-alpha", "u-beta", "u-gamma"]);
    assert_eq!(
        class_removal(Some(names.clone()), uris.clone(), "BETA", "c"),
        Ok(ClassChange::SetMembers(strings(&["u-alpha", "u-gamma"])))
    );
    assert_eq!(
        class_removal(Some(names.clone()), uris.clone(), "delta", "c"),
        Err("lpadmin-rs: Printer delta is not a member of class c.".to_string())
    );
    assert_eq!(
        class_removal(None, uris.clone(), "alpha", "c"),
        Err("lpadmin-rs: No member names were seen.".to_string())
    );
    assert_eq!(
        class_removal(Some(strings(&["only"])), strings(&["u-only"]), "Only", "c"),
        Ok(ClassChange::DeleteClass)
    );
    // Fewer URIs than names: the position beyond the URIs removes none.
    assert_eq!(
        class_removal(Some(names), strings(&["u-alpha"]), "gamma", "c"),
        Ok(ClassChange::SetMembers(strings(&["u-alpha"])))
    );
}

#[test]
fn class_change_requests() {
    assert_eq!(
        class_change_request("c", ClassChange::DeleteClass),
        AdminRequest {
            operation: IppOp::CupsDeleteClass,
            standard_attrs: true,
            attrs: vec![target("ipp://localhost/classes/c")],
            resource: "/admin/".to_string(),
            label: "CUPS-DELETE-CLASS".to_string(),
        }
    );
    assert_eq!(
        class_change_request("c", ClassChange::SetMembers(strings(&["u1"]))),
        AdminRequest {
            operation: IppOp::CupsAddModifyClass,
            standard_attrs: true,
            attrs: vec![
                target("ipp://localhost/classes/c"),
                attr(AttrGroup::Printer, "member-uris", AttrValue::Uris(strings(&["u1"]))),
            ],
            resource: "/admin/".to_string(),
            label: "CUPS-ADD-MODIFY-CLASS".to_string(),
        }
    );
}

#[test]
fn printer_type_marks_classes() {
    assert!(is_class(Some(1)));
    assert!(is_class(Some(0x1003)));
    assert!(is_class(Some(-1)));
    assert!(!is_class(Some(2)));
    assert!(!is_class(Some(0)));
    assert!(!is_class(None));
}

#[test]
fn delete_option_request_for_printer_and_class() {
    let r = delete_option_request("x", Some(4), "media-default");
    assert_eq!(r.operation, IppOp::CupsAddModifyPrinter);
    assert_eq!(
        r.attrs,
        vec![
            target("ipp://localhost/printers/x"),
            attr(AttrGroup::Printer, "media-default", AttrValue::DeleteAttr),
        ]
    );
    assert_eq!(r.label, "CUPS-ADD-MODIFY");
    let r = delete_option_request("x", Some(5), "media-default");
    assert_eq!(r.operation, IppOp::CupsAddModifyClass);
    assert_eq!(r.attrs[0], target("ipp://localhost/classes/x"));
    let r = delete_option_request("x", None, "o");
    assert_eq!(r.operation, IppOp::CupsAddModifyPrinter);
}

#[test]
fn ascii_case_insensitive_equality() {
    assert!(eq_ignore_ascii_case("LaserJet", "laserjet"));
    assert!(!eq_ignore_ascii_case("É", "é"));
    assert!(!eq_ignore_ascii_case("ab", "abc"));
}
