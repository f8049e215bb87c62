//! The command line of the tool and the plan of what it does: the steps to
//! take against the scheduler, in order, and the error that stops it.
use vstd::prelude::*;
use crate::access_control::{access_controls_view, AccessControl, AccessControlView};
use crate::ipp::{validate_name, valid_name};
use crate::options::{
    collect_options, opt_str_view, options_view, PrinterOption, PrinterOptions, PrinterOptionsView,
};

verus! {

/// Configure CUPS printers and classes
#[derive(Debug)]
pub struct Args {
    /// Print help information
    pub help: (),
    /// Set the named destination as the server default
    pub default_printer: Option<String>,
    /// Specify/add the named destination
    pub printer: Option<String>,
    /// Remove the named destination
    pub delete_printer: Option<String>,
    /// Add the named destination to a class
    pub class: Option<String>,
    /// Specify the textual description of the printer
    pub description: Option<String>,
    /// Encrypt the connection to the server (if used without -p);
    /// enable and accept jobs on the printer (if used with -p)
    pub enable_encrypt: bool,
    /// Connect to the named server and port
    pub server: Option<String>,
    /// Specify the textual location of the printer
    pub location: Option<String>,
    /// Specify a standard model/PPD file for the printer
    pub model: Option<String>,
    /// Set printer options (repeatable)
    pub options: Vec<PrinterOption>,
    /// Remove the named destination from a class
    pub remove_from_class: Option<String>,
    /// Remove the default value for the named option
    pub remove_option: Option<String>,
    /// Set user-level access control
    pub access_control: Vec<AccessControl>,
    /// Specify the username to use for authentication
    pub username: Option<String>,
    /// Specify the device URI for the printer
    pub device_uri: Option<String>,
}

/// One step against the scheduler or the client configuration.
#[derive(Debug, PartialEq, Eq)]
pub enum Action {
    /// `-h`: connect to this server.
    SetServer(String),
    /// `-U`: authenticate as this user.
    SetUser(String),
    /// `-E` with `-p`: enable the printer and resume it.
    EnablePrinter(String),
    /// `-E` without `-p`: require encryption.
    RequireEncryption,
    /// `-c`: add the printer to the class.
    AddPrinterToClass { printer: String, class: String },
    /// `-p`: create or modify the printer.
    AddOrModifyPrinter {
        printer: String,
        device_uri: Option<String>,
        model: Option<String>,
        description: Option<String>,
        location: Option<String>,
        options: PrinterOptions,
        access: Vec<AccessControl>,
    },
    /// `-d`: make the destination the server default.
    SetDefaultPrinter(String),
    /// `-x`: delete the destination.
    DeletePrinter(String),
    /// `-r`: remove the printer from the class.
    RemoveFromClass { printer: String, class: String },
    /// `-R`: remove the default of the option on the destination.
    DeletePrinterOption { printer: String, option: String },
}

/// The steps to take, in order, stopping at the first that fails; and the
/// error to report once they have all succeeded, where the command line
/// asks for something that cannot be done.
#[derive(Debug, PartialEq, Eq)]
pub struct Plan {
    pub actions: Vec<Action>,
    pub error: Option<String>,
}

pub enum ActionView {
    SetServer(Seq<char>),
    SetUser(Seq<char>),
    EnablePrinter(Seq<char>),
    RequireEncryption,
    AddPrinterToClass { printer: Seq<char>, class: Seq<char> },
    AddOrModifyPrinter {
        printer: Seq<char>,
        device_uri: Option<Seq<char>>,
        model: Option<Seq<char>>,
        description: Option<Seq<char>>,
        location: Option<Seq<char>>,
        options: PrinterOptionsView,
        access: Seq<AccessControlView>,
    },
    SetDefaultPrinter(Seq<char>),
    DeletePrinter(Seq<char>),
    RemoveFromClass { printer: Seq<char>, class: Seq<char> },
    DeletePrinterOption { printer: Seq<char>, option: Seq<char> },
}

pub struct PlanView {
    pub actions: Seq<ActionView>,
    pub error: Option<Seq<char>>,
}

impl View for Action {
    type V = ActionView;

    open spec fn view(&self) -> ActionView {
        match self {
            Action::SetServer(s) => ActionView::SetServer(s@),
            Action::SetUser(s) => ActionView::SetUser(s@),
            Action::EnablePrinter(s) => ActionView::EnablePrinter(s@),
            Action::RequireEncryption => ActionView::RequireEncryption,
            Action::AddPrinterToClass { printer, class } => ActionView::AddPrinterToClass {
                printer: printer@,
                class: class@,
            },
            Action::AddOrModifyPrinter {
                printer,
                device_uri,
                model,
                description,
                location,
                options,
                access,
            } => ActionView::AddOrModifyPrinter {
                printer: printer@,
                device_uri: opt_str_view(*device_uri),
                model: opt_str_view(*model),
                description: opt_str_view(*description),
                location: opt_str_view(*location),
                options: options@,
                access: access_controls_view(access@),
            },
            Action::SetDefaultPrinter(s) => ActionView::SetDefaultPrinter(s@),
            Action::DeletePrinter(s) => ActionView::DeletePrinter(s@),
            Action::RemoveFromClass { printer, class } => ActionView::RemoveFromClass {
                printer: printer@,
                class: class@,
            },
            Action::DeletePrinterOption { printer, option } => ActionView::DeletePrinterOption {
                printer: printer@,
                option: option@,
            },
        }
    }
}

pub open spec fn actions_view(v: Seq<Action>) -> Seq<ActionView> {
    v.map_values(|a: Action| a@)
}

impl View for Plan {
    type V = PlanView;

    open spec fn view(&self) -> PlanView {
        PlanView { actions: actions_view(self.actions@), error: opt_str_view(self.error) }
    }
}

/// `-v`, `-m`, `-D`, `-L`, `-o` or `-u` is given: they need `-p`.
pub open spec fn needs_printer(a: Args) -> bool {
    ||| a.device_uri is Some
    ||| a.model is Some
    ||| a.description is Some
    ||| a.location is Some
    ||| a.options@.len() > 0
    ||| a.access_control@.len() > 0
}

/// The steps before the class is handled: `-h`, `-U`, then `-E`.
pub open spec fn setup_actions(a: Args) -> Seq<ActionView> {
    (match a.server {
        Some(s) => seq![ActionView::SetServer(s@)],
        None => Seq::empty(),
    }) + (match a.username {
        Some(u) => seq![ActionView::SetUser(u@)],
        None => Seq::empty(),
    }) + (if a.enable_encrypt {
        match a.printer {
            Some(p) => seq![ActionView::EnablePrinter(p@)],
            None => seq![ActionView::RequireEncryption],
        }
    } else {
        Seq::empty()
    })
}

/// The steps of `-p`, `-d` and `-x`, in this order.
pub open spec fn printer_actions(a: Args) -> Seq<ActionView> {
    (match a.printer {
        Some(p) => seq![
            ActionView::AddOrModifyPrinter {
                printer: p@,
                device_uri: opt_str_view(a.device_uri),
                model: opt_str_view(a.model),
                description: opt_str_view(a.description),
                location: opt_str_view(a.location),
                options: collect_options(options_view(a.options@)),
                access: access_controls_view(a.access_control@),
            },
        ],
        None => Seq::empty(),
    }) + (match a.default_printer {
        Some(d) => seq![ActionView::SetDefaultPrinter(d@)],
        None => Seq::empty(),
    }) + (match a.delete_printer {
        Some(x) => seq![ActionView::DeletePrinter(x@)],
        None => Seq::empty(),
    })
}

pub open spec fn stop(actions: Seq<ActionView>, msg: Seq<char>) -> PlanView {
    PlanView { actions, error: Some(msg) }
}

/// What the command line asks for, in the order the tool does it: `-h`,
/// `-U`, `-E`, `-c`, `-p`, `-d`, `-x`, `-r`, `-R`. A class name that is not
/// valid, or `-c`, `-r`, `-R` or a printer setting without `-p`, stops the
/// plan there with its error.
pub open spec fn plan_view(a: Args) -> PlanView {
    let s0 = setup_actions(a);
    match a.class {
        Some(c) if !valid_name(c@) => stop(
            s0,
            "lpadmin: Class name can only contain printable characters."@,
        ),
        Some(c) if a.printer is None => stop(s0, "lpadmin: -c requires -p <destination>"@),
        _ => {
            let s1 = s0 + match a.class {
                Some(c) => seq![
                    ActionView::AddPrinterToClass { printer: a.printer->0@, class: c@ },
                ],
                None => Seq::empty(),
            };
            if needs_printer(a) && a.printer is None {
                stop(s1, "lpadmin: -p is required when using -v, -m, -D, -L, -o, or -u"@)
            } else {
                let s2 = s1 + printer_actions(a);
                match a.remove_from_class {
                    Some(_) if a.printer is None => stop(
                        s2,
                        "lpadmin: -r requires -p <destination>"@,
                    ),
                    _ => {
                        let s3 = s2 + match a.remove_from_class {
                            Some(c) => seq![
                                ActionView::RemoveFromClass { printer: a.printer->0@, class: c@ },
                            ],
                            None => Seq::empty(),
                        };
                        match a.remove_option {
                            Some(_) if a.printer is None => stop(
                                s3,
                                "lpadmin: -R requires -p <destination>"@,
                            ),
                            _ => PlanView {
                                actions: s3 + match a.remove_option {
                                    Some(o) => seq![
                                        ActionView::DeletePrinterOption {
                                            printer: a.printer->0@,
                                            option: o@,
                                        },
                                    ],
                                    None => Seq::empty(),
                                },
                                error: None,
                            },
                        }
                    },
                }
            }
        },
    }
}

/// A step that creates or modifies the printer carries exactly the values
/// of `-p`, `-v`, `-m`, `-D`, `-L`, `-o` and `-u`: the description is the
/// `-D` value and the location the `-L` value. Other steps carry nothing of
/// these.
pub open spec fn carries_printer_values(a: Args, step: ActionView) -> bool {
    match step {
        ActionView::AddOrModifyPrinter {
            printer,
            device_uri,
            model,
            description,
            location,
            options,
            access,
        } => {
            &&& a.printer is Some
            &&& printer == a.printer->0@
            &&& device_uri == opt_str_view(a.device_uri)
            &&& model == opt_str_view(a.model)
            &&& description == opt_str_view(a.description)
            &&& location == opt_str_view(a.location)
            &&& options == collect_options(options_view(a.options@))
            &&& access == access_controls_view(a.access_control@)
        },
        _ => true,
    }
}

pub open spec fn all_carry(a: Args, steps: Seq<ActionView>) -> bool {
    forall|k: int| 0 <= k < steps.len() ==> carries_printer_values(a, #[trigger] steps[k])
}

proof fn lemma_all_carry_concat(a: Args, s: Seq<ActionView>, t: Seq<ActionView>)
    requires
        all_carry(a, s),
        all_carry(a, t),
    ensures
        all_carry(a, s + t),
{
    assert forall|k: int| 0 <= k < (s + t).len() implies carries_printer_values(
        a,
        #[trigger] (s + t)[k],
    ) by {
        if k < s.len() {
            assert((s + t)[k] == s[k]);
        } else {
            assert((s + t)[k] == t[k - s.len()]);
        }
    }
}

proof fn lemma_no_printer_step(a: Args, s: Seq<ActionView>)
    requires
        forall|k: int| 0 <= k < s.len() ==> !(#[trigger] s[k] is AddOrModifyPrinter),
    ensures
        all_carry(a, s),
{
}

/// Every step of the plan that creates or modifies the printer carries the
/// values given on the command line, each in its own place (`-D` as the
/// description, `-L` as the location, ...); and where `-p` is given and
/// the plan runs to its end, it holds such a step.
pub proof fn lemma_plan_printer_values(a: Args)
    ensures
        all_carry(a, plan_view(a).actions),
        a.printer is Some && plan_view(a).error is None ==> exists|k: int|
            0 <= k < plan_view(a).actions.len() && (#[trigger] plan_view(a).actions[k]) is AddOrModifyPrinter,
{
    let s0 = setup_actions(a);
    let cls = match a.class {
        Some(c) => seq![ActionView::AddPrinterToClass { printer: a.printer->0@, class: c@ }],
        None => Seq::<ActionView>::empty(),
    };
    let pr = printer_actions(a);
    let rc = match a.remove_from_class {
        Some(c) => seq![ActionView::RemoveFromClass { printer: a.printer->0@, class: c@ }],
        None => Seq::<ActionView>::empty(),
    };
    let ro = match a.remove_option {
        Some(o) => seq![ActionView::DeletePrinterOption { printer: a.printer->0@, option: o@ }],
        None => Seq::<ActionView>::empty(),
    };
    lemma_no_printer_step(a, s0);
    lemma_no_printer_step(a, cls);
    lemma_no_printer_step(a, rc);
    lemma_no_printer_step(a, ro);
    let mo = match a.printer {
        Some(p) => seq![
            ActionView::AddOrModifyPrinter {
                printer: p@,
                device_uri: opt_str_view(a.device_uri),
                model: opt_str_view(a.model),
                description: opt_str_view(a.description),
                location: opt_str_view(a.location),
                options: collect_options(options_view(a.options@)),
                access: access_controls_view(a.access_control@),
            },
        ],
        None => Seq::<ActionView>::empty(),
    };
    let rest = (match a.default_printer {
        Some(d) => seq![ActionView::SetDefaultPrinter(d@)],
        None => Seq::<ActionView>::empty(),
    }) + (match a.delete_printer {
        Some(x) => seq![ActionView::DeletePrinter(x@)],
        None => Seq::<ActionView>::empty(),
    });
    lemma_no_printer_step(a, rest);
    assert(all_carry(a, mo));
    assert(pr =~= mo + rest);
    lemma_all_carry_concat(a, mo, rest);
    lemma_all_carry_concat(a, s0, cls);
    lemma_all_carry_concat(a, s0 + cls, pr);
    lemma_all_carry_concat(a, s0 + cls + pr, rc);
    lemma_all_carry_concat(a, s0 + cls + pr + rc, ro);
    if a.printer is Some && plan_view(a).error is None {
        let all = s0 + cls + pr + rc + ro;
        assert(plan_view(a).actions == all);
        let k = (s0 + cls).len() as int;
        assert(all[k] == pr[0]);
        assert(pr[0] == mo[0]);
    }
}

fn push_action(actions: &mut Vec<Action>, a: Action)
    ensures
        actions_view(final(actions)@) == actions_view(old(actions)@).push(a@),
{
    actions.push(a);
    assert(actions_view(actions@) =~= actions_view(old(actions)@).push(a@));
}

fn opt_clone(o: &Option<String>) -> (r: Option<String>)
    ensures
        opt_str_view(r) == opt_str_view(*o),
{
    match o {
        Some(s) => Some(s.clone()),
        None => None,
    }
}

fn setup(args: &Args) -> (r: Vec<Action>)
    ensures
        actions_view(r@) == setup_actions(*args),
{
    let mut actions: Vec<Action> = Vec::new();
    if let Some(server) = &args.server {
        push_action(&mut actions, Action::SetServer(server.clone()));
    }
    let ghost a1 = actions_view(actions@);
    if let Some(username) = &args.username {
        push_action(&mut actions, Action::SetUser(username.clone()));
    }
    let ghost a2 = actions_view(actions@);
    if args.enable_encrypt {
        if let Some(printer) = &args.printer {
            push_action(&mut actions, Action::EnablePrinter(printer.clone()));
        } else {
            push_action(&mut actions, Action::RequireEncryption);
        }
    }
    proof {
        let su = match &args.server {
            Some(s) => seq![ActionView::SetServer(s@)],
            None => Seq::<ActionView>::empty(),
        };
        let uu = match &args.username {
            Some(u) => seq![ActionView::SetUser(u@)],
            None => Seq::<ActionView>::empty(),
        };
        assert(a1 =~= su);
        assert(a2 =~= su + uu);
        assert(actions_view(actions@) =~= setup_actions(*args));
    }
    actions
}

fn push_printer_actions(actions: &mut Vec<Action>, args: Args)
    ensures
        actions_view(final(actions)@) == actions_view(old(actions)@) + printer_actions(args),
{
    let ghost a0 = actions_view(actions@);
    let ghost g = args;
    let Args {
        help: _,
        default_printer,
        printer,
        delete_printer,
        class: _,
        description,
        enable_encrypt: _,
        server: _,
        location,
        model,
        options,
        remove_from_class: _,
        remove_option: _,
        access_control,
        username: _,
        device_uri,
    } = args;
    let opts = PrinterOptions::from(options);
    if let Some(p) = printer {
        push_action(
            actions,
            Action::AddOrModifyPrinter {
                printer: p,
                device_uri,
                model,
                description,
                location,
                options: opts,
                access: access_control,
            },
        );
    }
    let ghost a1 = actions_view(actions@);
    if let Some(d) = default_printer {
        push_action(actions, Action::SetDefaultPrinter(d));
    }
    let ghost a2 = actions_view(actions@);
    if let Some(x) = delete_printer {
        push_action(actions, Action::DeletePrinter(x));
    }
    proof {
        let pa = match g.printer {
            Some(p) => seq![
                ActionView::AddOrModifyPrinter {
                    printer: p@,
                    device_uri: opt_str_view(g.device_uri),
                    model: opt_str_view(g.model),
                    description: opt_str_view(g.description),
                    location: opt_str_view(g.location),
                    options: collect_options(options_view(g.options@)),
                    access: access_controls_view(g.access_control@),
                },
            ],
            None => Seq::<ActionView>::empty(),
        };
        let da = match g.default_printer {
            Some(d) => seq![ActionView::SetDefaultPrinter(d@)],
            None => Seq::<ActionView>::empty(),
        };
        assert(a1 =~= a0 + pa);
        assert(a2 =~= a0 + pa + da);
        assert(actions_view(actions@) =~= a0 + printer_actions(g));
    }
}

/// Plan what the command line asks for: the steps, in the order the tool
/// takes them, and the error with which it stops where the command line
/// asks for what cannot be done.
pub fn plan(args: Args) -> (r: Plan)
    ensures
        r@ == plan_view(args),
{
    let ghost g = args;
    let mut actions = setup(&args);
    let ghost s0 = actions_view(actions@);
    if let Some(class) = &args.class {
        if !validate_name(class.as_str()) {
            return Plan {
                actions,
                error: Some(
                    String::from_str("lpadmin: Class name can only contain printable characters."),
                ),
            };
        }
        match &args.printer {
            Some(printer) => {
                push_action(
                    &mut actions,
                    Action::AddPrinterToClass { printer: printer.clone(), class: class.clone() },
                );
            },
            None => {
                return Plan {
                    actions,
                    error: Some(String::from_str("lpadmin: -c requires -p <destination>")),
                };
            },
        }
    }
    let ghost s1 = actions_view(actions@);
    assert(s1 =~= s0 + match g.class {
        Some(c) => seq![ActionView::AddPrinterToClass { printer: g.printer->0@, class: c@ }],
        None => Seq::<ActionView>::empty(),
    });
    let needs = args.device_uri.is_some() || args.model.is_some() || args.description.is_some()
        || args.location.is_some() || args.options.len() > 0 || args.access_control.len() > 0;
    if needs && args.printer.is_none() {
        return Plan {
            actions,
            error: Some(
                String::from_str("lpadmin: -p is required when using -v, -m, -D, -L, -o, or -u"),
            ),
        };
    }
    let printer = opt_clone(&args.printer);
    let remove_from_class = opt_clone(&args.remove_from_class);
    let remove_option = opt_clone(&args.remove_option);
    push_printer_actions(&mut actions, args);
    let ghost s2 = actions_view(actions@);
    if let Some(class) = remove_from_class {
        match &printer {
            Some(p) => {
                push_action(&mut actions, Action::RemoveFromClass { printer: p.clone(), class });
            },
            None => {
                return Plan {
                    actions,
                    error: Some(String::from_str("lpadmin: -r requires -p <destination>")),
                };
            },
        }
    }
    let ghost s3 = actions_view(actions@);
    assert(s3 =~= s2 + match g.remove_from_class {
        Some(c) => seq![ActionView::RemoveFromClass { printer: g.printer->0@, class: c@ }],
        None => Seq::<ActionView>::empty(),
    });
    if let Some(option) = remove_option {
        match &printer {
            Some(p) => {
                push_action(
                    &mut actions,
                    Action::DeletePrinterOption { printer: p.clone(), option },
                );
            },
            None => {
                return Plan {
                    actions,
                    error: Some(String::from_str("lpadmin: -R requires -p <destination>")),
                };
            },
        }
    }
    assert(actions_view(actions@) =~= s3 + match g.remove_option {
        Some(o) => seq![ActionView::DeletePrinterOption { printer: g.printer->0@, option: o@ }],
        None => Seq::<ActionView>::empty(),
    });
    Plan { actions, error: None }
}

} // verus!
