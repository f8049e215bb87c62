use lpadmin::access_control::AccessControl;
use lpadmin::cli::{plan, Action, Args, Plan};
use lpadmin::options::{PrinterOption, PrinterOptions};

fn no_args() -> Args {
    Args {
        help: (),
        default_printer: None,
        printer: None,
        delete_printer: None,
        class: None,
        description: None,
        enable_encrypt: false,
        server: None,
        location: None,
        model: None,
        options: vec![],
        remove_from_class: None,
        remove_option: None,
        access_control: vec![],
        username: None,
        device_uri: None,
    }
}

fn s(x: &str) -> String {
    x.to_string()
}

fn modify(printer: &str) -> Action {
    Action::AddOrModifyPrinter {
        printer: s(printer),
        device_uri: None,
        model: None,
        description: None,
        location: None,
        options: PrinterOptions::default(),
        access: vec![],
    }
}

#[test]
fn nothing_to_do() {
    assert_eq!(plan(no_args()), Plan { actions: vec![], error: None });
}

#[test]
fn server_user_and_encryption_come_first() {
    let mut a = no_args();
    a.server = Some(s("cups.example:631"));
    a.username = Some(s("admin"));
    a.enable_encrypt = true;
    a.default_printer = Some(s("lp"));
    assert_eq!(
        plan(a),
        Plan {
            actions: vec![
                Action::SetServer(s("cups.example:631")),
                Action::SetUser(s("admin")),
                Action::RequireEncryption,
                Action::SetDefaultPrinter(s("lp")),
            ],
            error: None,
        }
    );
}

#[test]
fn enable_with_printer() {
    let mut a = no_args();
    a.enable_encrypt = true;
    a.printer = Some(s("lp"));
    assert_eq!(
        plan(a),
        Plan { actions: vec![Action::EnablePrinter(s("lp")), modify("lp")], error: None }
    );
}

#[test]
fn full_order_of_steps() {
    let mut a = no_args();
    a.printer = Some(s("lp"));
    a.class = Some(s("office"));
    a.default_printer = Some(s("lp"));
    a.delete_printer = Some(s("old"));
    a.remove_from_class = Some(s("basement"));
    a.remove_option = Some(s("media-default"));
    a.device_uri = Some(s("ipp://printer.local/ipp/print"));
    a.options = vec![PrinterOption::JobKLimit(5), PrinterOption::JobKLimit(6)];
    a.access_control = vec![AccessControl::AllowAll];
    let mut opts = PrinterOptions::default();
    opts.job_k_limit = Some(6);
    assert_eq!(
        plan(a),
        Plan {
            actions: vec![
                Action::AddPrinterToClass { printer: s("lp"), class: s("office") },
                Action::AddOrModifyPrinter {
                    printer: s("lp"),
                    device_uri: Some(s("ipp://printer.local/ipp/print")),
                    model: None,
                    description: None,
                    location: None,
                    options: opts,
                    access: vec![AccessControl::AllowAll],
                },
                Action::SetDefaultPrinter(s("lp")),
                Action::DeletePrinter(s("old")),
                Action::RemoveFromClass { printer: s("lp"), class: s("basement") },
                Action::DeletePrinterOption { printer: s("lp"), option: s("media-default") },
            ],
            error: None,
        }
    );
}

#[test]
fn invalid_class_name_stops_after_setup() {
    let mut a = no_args();
    a.server = Some(s("h"));
    a.class = Some(s("bad class"));
    a.printer = Some(s("lp"));
    assert_eq!(
        plan(a),
        Plan {
            actions: vec![Action::SetServer(s("h"))],
            error: Some(s("lpadmin: Class name can only contain printable characters.")),
        }
    );
}

#[test]
fn class_without_printer() {
    let mut a = no_args();
    a.class = Some(s("office"));
    assert_eq!(
        plan(a),
        Plan { actions: vec![], error: Some(s("lpadmin: -c requires -p <destination>")) }
    );
}

#[test]
fn settings_without_printer() {
    for set in 0..6 {
        let mut a = no_args();
        a.enable_encrypt = true;
        match set {
            0 => a.device_uri = Some(s("x")),
            1 => a.model = Some(s("everywhere")),
            2 => a.description = Some(s("d")),
            3 => a.location = Some(s("l")),
            4 => a.options = vec![PrinterOption::PrinterIsShared(true)],
            _ => a.access_control = vec![AccessControl::DenyNone],
        }
        assert_eq!(
            plan(a),
            Plan {
                actions: vec![Action::RequireEncryption],
                error: Some(s("lpadmin: -p is required when using -v, -m, -D, -L, -o, or -u")),
            }
        );
    }
}

#[test]
fn remove_from_class_without_printer_after_default_and_delete() {
    let mut a = no_args();
    a.default_printer = Some(s("d"));
    a.delete_printer = Some(s("x"));
    a.remove_from_class = Some(s("c"));
    a.remove_option = Some(s("o"));
    assert_eq!(
        plan(a),
        Plan {
            actions: vec![Action::SetDefaultPrinter(s("d")), Action::DeletePrinter(s("x"))],
            error: Some(s("lpadmin: -r requires -p <destination>")),
        }
    );
}

#[test]
fn remove_option_without_printer() {
    let mut a = no_args();
    a.remove_option = Some(s("o"));
    assert_eq!(
        plan(a),
        Plan { actions: vec![], error: Some(s("lpadmin: -R requires -p <destination>")) }
    );
}
