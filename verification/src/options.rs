//! Printer options (`-o NAME=VALUE`): the parser of one option and the
//! collection of many into the settings that go to the scheduler.
use vstd::prelude::*;
use crate::text::{
    all_digits, digit_value, digits_value, eq_lowercase, find, find_char, is_digit,
    lemma_digits_value_prefix, lemma_find_char_first, lower, str_eq, trim, trim_str,
};

verus! {

/// Printer options
#[derive(Debug, Clone, PartialEq, Eq)]
pub enum PrinterOption {
    CupsIPPSupplies(bool),
    CupsSNMPSupplies(bool),
    PrinterIsShared(bool),
    JobKLimit(u32),
    JobPageLimit(u32),
    JobQuotaPeriod(u32),
    JobSheetsDefault(String),
    PortMonitor(String),
    PrinterErrorPolicy(String),
    PrinterOpPolicy(String),
    Other { key: String, value: String },
}

/// The settings that a list of options makes, each at most once, with the
/// options that have no setting of their own kept in order under `other`.
#[derive(Debug, PartialEq, Eq)]
pub struct PrinterOptions {
    pub cups_ipp_supplies: Option<bool>,
    pub cups_snmp_supplies: Option<bool>,
    pub printer_is_shared: Option<bool>,
    pub job_k_limit: Option<u32>,
    pub job_page_limit: Option<u32>,
    pub job_quota_period: Option<u32>,
    pub job_sheets_default: Option<String>,
    pub port_monitor: Option<String>,
    pub printer_error_policy: Option<String>,
    pub printer_op_policy: Option<String>,
    /// PPD and default options
    pub other: Vec<(String, String)>,
}

/// The value of a `PrinterOption`.
pub enum PrinterOptionView {
    CupsIPPSupplies(bool),
    CupsSNMPSupplies(bool),
    PrinterIsShared(bool),
    JobKLimit(u32),
    JobPageLimit(u32),
    JobQuotaPeriod(u32),
    JobSheetsDefault(Seq<char>),
    PortMonitor(Seq<char>),
    PrinterErrorPolicy(Seq<char>),
    PrinterOpPolicy(Seq<char>),
    Other { key: Seq<char>, value: Seq<char> },
}

/// The value of a `PrinterOptions`.
#[verifier::ext_equal]
pub struct PrinterOptionsView {
    pub cups_ipp_supplies: Option<bool>,
    pub cups_snmp_supplies: Option<bool>,
    pub printer_is_shared: Option<bool>,
    pub job_k_limit: Option<u32>,
    pub job_page_limit: Option<u32>,
    pub job_quota_period: Option<u32>,
    pub job_sheets_default: Option<Seq<char>>,
    pub port_monitor: Option<Seq<char>>,
    pub printer_error_policy: Option<Seq<char>>,
    pub printer_op_policy: Option<Seq<char>>,
    pub other: Seq<(Seq<char>, Seq<char>)>,
}

pub open spec fn opt_str_view(o: Option<String>) -> Option<Seq<char>> {
    match o {
        Some(s) => Some(s@),
        None => None,
    }
}

pub open spec fn pair_view(p: (String, String)) -> (Seq<char>, Seq<char>) {
    (p.0@, p.1@)
}

impl View for PrinterOption {
    type V = PrinterOptionView;

    open spec fn view(&self) -> PrinterOptionView {
        match self {
            PrinterOption::CupsIPPSupplies(v) => PrinterOptionView::CupsIPPSupplies(*v),
            PrinterOption::CupsSNMPSupplies(v) => PrinterOptionView::CupsSNMPSupplies(*v),
            PrinterOption::PrinterIsShared(v) => PrinterOptionView::PrinterIsShared(*v),
            PrinterOption::JobKLimit(v) => PrinterOptionView::JobKLimit(*v),
            PrinterOption::JobPageLimit(v) => PrinterOptionView::JobPageLimit(*v),
            PrinterOption::JobQuotaPeriod(v) => PrinterOptionView::JobQuotaPeriod(*v),
            PrinterOption::JobSheetsDefault(v) => PrinterOptionView::JobSheetsDefault(v@),
            PrinterOption::PortMonitor(v) => PrinterOptionView::PortMonitor(v@),
            PrinterOption::PrinterErrorPolicy(v) => PrinterOptionView::PrinterErrorPolicy(v@),
            PrinterOption::PrinterOpPolicy(v) => PrinterOptionView::PrinterOpPolicy(v@),
            PrinterOption::Other { key, value } => PrinterOptionView::Other {
                key: key@,
                value: value@,
            },
        }
    }
}

pub open spec fn options_view(v: Seq<PrinterOption>) -> Seq<PrinterOptionView> {
    v.map_values(|o: PrinterOption| o@)
}

impl View for PrinterOptions {
    type V = PrinterOptionsView;

    open spec fn view(&self) -> PrinterOptionsView {
        PrinterOptionsView {
            cups_ipp_supplies: self.cups_ipp_supplies,
            cups_snmp_supplies: self.cups_snmp_supplies,
            printer_is_shared: self.printer_is_shared,
            job_k_limit: self.job_k_limit,
            job_page_limit: self.job_page_limit,
            job_quota_period: self.job_quota_period,
            job_sheets_default: opt_str_view(self.job_sheets_default),
            port_monitor: opt_str_view(self.port_monitor),
            printer_error_policy: opt_str_view(self.printer_error_policy),
            printer_op_policy: opt_str_view(self.printer_op_policy),
            other: self.other@.map_values(|p: (String, String)| pair_view(p)),
        }
    }
}

/// No setting made.
pub open spec fn no_settings() -> PrinterOptionsView {
    PrinterOptionsView {
        cups_ipp_supplies: None,
        cups_snmp_supplies: None,
        printer_is_shared: None,
        job_k_limit: None,
        job_page_limit: None,
        job_quota_period: None,
        job_sheets_default: None,
        port_monitor: None,
        printer_error_policy: None,
        printer_op_policy: None,
        other: Seq::empty(),
    }
}

/// The settings after one more option: it replaces the setting of its kind,
/// or, for an option without one, is added at the end of `other`.
pub open spec fn apply_option(acc: PrinterOptionsView, o: PrinterOptionView) -> PrinterOptionsView {
    match o {
        PrinterOptionView::CupsIPPSupplies(v) => PrinterOptionsView {
            cups_ipp_supplies: Some(v),
            ..acc
        },
        PrinterOptionView::CupsSNMPSupplies(v) => PrinterOptionsView {
            cups_snmp_supplies: Some(v),
            ..acc
        },
        PrinterOptionView::PrinterIsShared(v) => PrinterOptionsView {
            printer_is_shared: Some(v),
            ..acc
        },
        PrinterOptionView::JobKLimit(v) => PrinterOptionsView { job_k_limit: Some(v), ..acc },
        PrinterOptionView::JobPageLimit(v) => PrinterOptionsView { job_page_limit: Some(v), ..acc },
        PrinterOptionView::JobQuotaPeriod(v) => PrinterOptionsView {
            job_quota_period: Some(v),
            ..acc
        },
        PrinterOptionView::JobSheetsDefault(v) => PrinterOptionsView {
            job_sheets_default: Some(v),
            ..acc
        },
        PrinterOptionView::PortMonitor(v) => PrinterOptionsView { port_monitor: Some(v), ..acc },
        PrinterOptionView::PrinterErrorPolicy(v) => PrinterOptionsView {
            printer_error_policy: Some(v),
            ..acc
        },
        PrinterOptionView::PrinterOpPolicy(v) => PrinterOptionsView {
            printer_op_policy: Some(v),
            ..acc
        },
        PrinterOptionView::Other { key, value } => PrinterOptionsView {
            other: acc.other.push((key, value)),
            ..acc
        },
    }
}

/// The settings that a list of options makes, taken in order.
pub open spec fn collect_options(s: Seq<PrinterOptionView>) -> PrinterOptionsView
    decreases s.len(),
{
    if s.len() == 0 {
        no_settings()
    } else {
        apply_option(collect_options(s.drop_last()), s.last())
    }
}

pub open spec fn later<T>(a: Option<T>, b: Option<T>) -> Option<T> {
    match b {
        Some(v) => Some(v),
        None => a,
    }
}

/// The settings `a` overridden by the settings `b`: each setting of `b`
/// wins, and the other options of `b` come after those of `a`.
pub open spec fn override_settings(a: PrinterOptionsView, b: PrinterOptionsView) -> PrinterOptionsView {
    PrinterOptionsView {
        cups_ipp_supplies: later(a.cups_ipp_supplies, b.cups_ipp_supplies),
        cups_snmp_supplies: later(a.cups_snmp_supplies, b.cups_snmp_supplies),
        printer_is_shared: later(a.printer_is_shared, b.printer_is_shared),
        job_k_limit: later(a.job_k_limit, b.job_k_limit),
        job_page_limit: later(a.job_page_limit, b.job_page_limit),
        job_quota_period: later(a.job_quota_period, b.job_quota_period),
        job_sheets_default: later(a.job_sheets_default, b.job_sheets_default),
        port_monitor: later(a.port_monitor, b.port_monitor),
        printer_error_policy: later(a.printer_error_policy, b.printer_error_policy),
        printer_op_policy: later(a.printer_op_policy, b.printer_op_policy),
        other: a.other + b.other,
    }
}

/// One more option on the overriding side is one more option on the whole.
proof fn lemma_apply_override(a: PrinterOptionsView, b: PrinterOptionsView, o: PrinterOptionView)
    ensures
        apply_option(override_settings(a, b), o) == override_settings(a, apply_option(b, o)),
{
    let lhs = apply_option(override_settings(a, b), o);
    let rhs = override_settings(a, apply_option(b, o));
    match o {
        PrinterOptionView::CupsIPPSupplies(v) => {
            assert(lhs =~= rhs);
        },
        PrinterOptionView::CupsSNMPSupplies(v) => {
            assert(lhs =~= rhs);
        },
        PrinterOptionView::PrinterIsShared(v) => {
            assert(lhs =~= rhs);
        },
        PrinterOptionView::JobKLimit(v) => {
            assert(lhs =~= rhs);
        },
        PrinterOptionView::JobPageLimit(v) => {
            assert(lhs =~= rhs);
        },
        PrinterOptionView::JobQuotaPeriod(v) => {
            assert(lhs =~= rhs);
        },
        PrinterOptionView::JobSheetsDefault(v) => {
            assert(lhs =~= rhs);
        },
        PrinterOptionView::PortMonitor(v) => {
            assert(lhs =~= rhs);
        },
        PrinterOptionView::PrinterErrorPolicy(v) => {
            assert(lhs =~= rhs);
        },
        PrinterOptionView::PrinterOpPolicy(v) => {
            assert(lhs =~= rhs);
        },
        PrinterOptionView::Other { key, value } => {
            assert(lhs.other =~= rhs.other);
            assert(lhs =~= rhs);
        },
    }
}

/// Options given later override those given earlier: collecting two lists
/// one after the other is collecting each and letting the second one's
/// settings win, with the second one's other options after the first's.
pub proof fn lemma_collect_options_append(s: Seq<PrinterOptionView>, t: Seq<PrinterOptionView>)
    ensures
        collect_options(s + t) == override_settings(collect_options(s), collect_options(t)),
    decreases t.len(),
{
    let a = collect_options(s);
    if t.len() == 0 {
        assert(s + t =~= s);
        assert(a.other + Seq::empty() =~= a.other);
        assert(collect_options(t) == no_settings());
    } else {
        let t1 = t.drop_last();
        lemma_collect_options_append(s, t1);
        assert((s + t).drop_last() =~= s + t1);
        assert((s + t).last() == t.last());
        lemma_apply_override(a, collect_options(t1), t.last());
    }
}

/// Two options of the same kind: they set the same setting, or both are
/// kept under `other`.
pub open spec fn same_kind(x: PrinterOptionView, y: PrinterOptionView) -> bool {
    match (x, y) {
        (PrinterOptionView::CupsIPPSupplies(_), PrinterOptionView::CupsIPPSupplies(_)) => true,
        (PrinterOptionView::CupsSNMPSupplies(_), PrinterOptionView::CupsSNMPSupplies(_)) => true,
        (PrinterOptionView::PrinterIsShared(_), PrinterOptionView::PrinterIsShared(_)) => true,
        (PrinterOptionView::JobKLimit(_), PrinterOptionView::JobKLimit(_)) => true,
        (PrinterOptionView::JobPageLimit(_), PrinterOptionView::JobPageLimit(_)) => true,
        (PrinterOptionView::JobQuotaPeriod(_), PrinterOptionView::JobQuotaPeriod(_)) => true,
        (PrinterOptionView::JobSheetsDefault(_), PrinterOptionView::JobSheetsDefault(_)) => true,
        (PrinterOptionView::PortMonitor(_), PrinterOptionView::PortMonitor(_)) => true,
        (PrinterOptionView::PrinterErrorPolicy(_), PrinterOptionView::PrinterErrorPolicy(_)) => true,
        (PrinterOptionView::PrinterOpPolicy(_), PrinterOptionView::PrinterOpPolicy(_)) => true,
        (PrinterOptionView::Other { .. }, PrinterOptionView::Other { .. }) => true,
        _ => false,
    }
}

/// Two options of different kinds applied in either order make the same
/// settings.
proof fn lemma_apply_commute(a: PrinterOptionsView, x: PrinterOptionView, y: PrinterOptionView)
    requires
        !same_kind(x, y),
    ensures
        apply_option(apply_option(a, x), y) == apply_option(apply_option(a, y), x),
{
    let l = apply_option(apply_option(a, x), y);
    let r = apply_option(apply_option(a, y), x);
    assert(l.other =~= r.other);
    assert(l =~= r);
}

/// Only the order of options of the same kind matters: two neighbouring
/// options of different kinds can trade places without changing the
/// settings that a list makes.
pub proof fn lemma_collect_options_swap(
    p: Seq<PrinterOptionView>,
    x: PrinterOptionView,
    y: PrinterOptionView,
    q: Seq<PrinterOptionView>,
)
    requires
        !same_kind(x, y),
    ensures
        collect_options(p + seq![x, y] + q) == collect_options(p + seq![y, x] + q),
{
    let pxy = p + seq![x, y];
    let pyx = p + seq![y, x];
    lemma_collect_options_append(pxy, q);
    lemma_collect_options_append(pyx, q);
    assert(pxy.drop_last() =~= p.push(x));
    assert(pyx.drop_last() =~= p.push(y));
    assert(p.push(x).drop_last() =~= p);
    assert(p.push(y).drop_last() =~= p);
    assert(pxy.last() == y);
    assert(pyx.last() == x);
    assert(p.push(x).last() == x);
    assert(p.push(y).last() == y);
    assert(collect_options(p.push(x)) == apply_option(collect_options(p), x));
    assert(collect_options(p.push(y)) == apply_option(collect_options(p), y));
    assert(collect_options(pxy) == apply_option(apply_option(collect_options(p), x), y));
    assert(collect_options(pyx) == apply_option(apply_option(collect_options(p), y), x));
    lemma_apply_commute(collect_options(p), x, y);
}

/// The result of reading a boolean option value.
pub open spec fn bool_result(s: Seq<char>) -> Result<bool, Seq<char>> {
    let t = lower(trim(s));
    if t == "true"@ {
        Ok(true)
    } else if t == "false"@ {
        Ok(false)
    } else {
        Err("expected true/false/yes/no/on/off, got: "@ + s)
    }
}

/// The digits of an unsigned number after one optional `+`.
pub open spec fn unsigned_digits(t: Seq<char>) -> Seq<char> {
    if t.len() > 0 && t[0] == '+' {
        t.skip(1)
    } else {
        t
    }
}

/// The result of reading an unsigned 32-bit option value, as `u32::from_str`
/// reads the trimmed text.
pub open spec fn u32_result(s: Seq<char>) -> Result<u32, Seq<char>> {
    let d = unsigned_digits(trim(s));
    if d.len() > 0 && all_digits(d) && digits_value(d) <= u32::MAX {
        Ok(digits_value(d) as u32)
    } else {
        Err("expected integer, got: "@ + s)
    }
}

/// The decimal digit for `k < 10`.
pub open spec fn digit_char(k: nat) -> char {
    ((k + 48) as u32) as char
}

/// `n` written in decimal, without leading zeros (`0` is written `0`).
pub open spec fn decimal(n: nat) -> Seq<char>
    decreases n,
{
    if n < 10 {
        seq![digit_char(n)]
    } else {
        decimal(n / 10).push(digit_char(n % 10))
    }
}

proof fn lemma_digit_char(k: nat)
    requires
        k < 10,
    ensures
        is_digit(digit_char(k)),
        digit_value(digit_char(k)) == k,
        !crate::text::is_ws(digit_char(k)),
        digit_char(k) != '+',
{
}

proof fn lemma_decimal(n: nat)
    ensures
        decimal(n).len() > 0,
        all_digits(decimal(n)),
        digits_value(decimal(n)) == n,
    decreases n,
{
    if n < 10 {
        lemma_digit_char(n);
        let d = decimal(n);
        assert(d.drop_last() =~= Seq::<char>::empty());
        assert(digits_value(d.drop_last()) == 0);
        assert(d.last() == digit_char(n));
        assert(digits_value(d) == digits_value(d.drop_last()) * 10 + digit_value(d.last()));
    } else {
        lemma_decimal(n / 10);
        lemma_digit_char(n % 10);
        let d = decimal(n);
        assert(d.drop_last() =~= decimal(n / 10));
        assert(all_digits(d)) by {
            assert forall|i: int| 0 <= i < d.len() implies is_digit(#[trigger] d[i]) by {
                if i < d.len() - 1 {
                    assert(d[i] == decimal(n / 10)[i]);
                }
            }
        }
        assert(d.last() == digit_char(n % 10));
        assert(digits_value(d) == digits_value(d.drop_last()) * 10 + digit_value(d.last()));
        assert(n == (n / 10) * 10 + n % 10) by (nonlinear_arith);
    }
}

/// Every 32-bit value written in decimal, `0` included, reads back as
/// itself, with or without one leading `+`.
pub proof fn lemma_u32_decimal_round_trip(n: u32)
    ensures
        u32_result(decimal(n as nat)) == Ok::<u32, Seq<char>>(n),
        u32_result(seq!['+'] + decimal(n as nat)) == Ok::<u32, Seq<char>>(n),
{
    let d = decimal(n as nat);
    lemma_decimal(n as nat);
    assert(crate::text::is_digit(d[0]) && crate::text::is_digit(d.last()));
    assert(!crate::text::is_ws(d[0]) && !crate::text::is_ws(d.last()));
    crate::text::lemma_trim_fixed(d);
    assert(d[0] != '+');
    assert(unsigned_digits(trim(d)) == d);
    let pd = seq!['+'] + d;
    assert(pd[0] == '+' && pd.last() == d.last());
    crate::text::lemma_trim_fixed(pd);
    assert(pd.skip(1) =~= d);
    assert(unsigned_digits(trim(pd)) == d);
}

pub open spec fn bool_option(
    r: Result<bool, Seq<char>>,
    f: spec_fn(bool) -> PrinterOptionView,
) -> Result<PrinterOptionView, Seq<char>> {
    match r {
        Ok(b) => Ok(f(b)),
        Err(e) => Err(e),
    }
}

pub open spec fn u32_option(
    r: Result<u32, Seq<char>>,
    f: spec_fn(u32) -> PrinterOptionView,
) -> Result<PrinterOptionView, Seq<char>> {
    match r {
        Ok(n) => Ok(f(n)),
        Err(e) => Err(e),
    }
}

/// The result of reading `NAME=VALUE`, split at the first `=`.
pub open spec fn printer_option_result(s: Seq<char>) -> Result<PrinterOptionView, Seq<char>> {
    match find_char(s, '=') {
        None => Err("expected NAME=VALUE, got: "@ + s),
        Some(i) => {
            let key = s.take(i);
            let val = s.skip(i + 1);
            if key == "cupsIPPSupplies"@ {
                bool_option(bool_result(val), |b: bool| PrinterOptionView::CupsIPPSupplies(b))
            } else if key == "cupsSNMPSupplies"@ {
                bool_option(bool_result(val), |b: bool| PrinterOptionView::CupsSNMPSupplies(b))
            } else if key == "printer-is-shared"@ {
                bool_option(bool_result(val), |b: bool| PrinterOptionView::PrinterIsShared(b))
            } else if key == "job-k-limit"@ {
                u32_option(u32_result(val), |n: u32| PrinterOptionView::JobKLimit(n))
            } else if key == "job-page-limit"@ {
                u32_option(u32_result(val), |n: u32| PrinterOptionView::JobPageLimit(n))
            } else if key == "job-quota-period"@ {
                u32_option(u32_result(val), |n: u32| PrinterOptionView::JobQuotaPeriod(n))
            } else if key == "job-sheets-default"@ {
                Ok(PrinterOptionView::JobSheetsDefault(val))
            } else if key == "port-monitor"@ {
                Ok(PrinterOptionView::PortMonitor(val))
            } else if key == "printer-error-policy"@ {
                Ok(PrinterOptionView::PrinterErrorPolicy(val))
            } else if key == "printer-op-policy"@ {
                Ok(PrinterOptionView::PrinterOpPolicy(val))
            } else {
                Ok(PrinterOptionView::Other { key, value: val })
            }
        },
    }
}

/// The option names that take a value of their own kind.
pub open spec fn is_known_option(k: Seq<char>) -> bool {
    ||| k == "cupsIPPSupplies"@
    ||| k == "cupsSNMPSupplies"@
    ||| k == "printer-is-shared"@
    ||| k == "job-k-limit"@
    ||| k == "job-page-limit"@
    ||| k == "job-quota-period"@
    ||| k == "job-sheets-default"@
    ||| k == "port-monitor"@
    ||| k == "printer-error-policy"@
    ||| k == "printer-op-policy"@
}

/// `NAME=VALUE` is split at the first `=`, so the value may hold `=`: a
/// name without `=` and of no known kind, with any value, is kept as that
/// name and that value.
pub proof fn lemma_other_option(k: Seq<char>, v: Seq<char>)
    requires
        !k.contains('='),
        !is_known_option(k),
    ensures
        printer_option_result(k + seq!['='] + v) == Ok::<PrinterOptionView, Seq<char>>(
            PrinterOptionView::Other { key: k, value: v },
        ),
{
    let s = k + seq!['='] + v;
    assert forall|j: int| 0 <= j < k.len() implies #[trigger] s[j] != '=' by {
        assert(s[j] == k[j]);
    }
    crate::text::lemma_find_char(s, '=', k.len() as int);
    assert(s.take(k.len() as int) =~= k);
    assert(s.skip(k.len() as int + 1) =~= v);
}

/// Read a boolean option value: `true` or `false` in any ASCII case, with
/// white space around it.
pub fn parse_bool(s: &str) -> (r: Result<bool, String>)
    ensures
        match r {
            Ok(b) => bool_result(s@) == Ok::<bool, Seq<char>>(b),
            Err(e) => bool_result(s@) == Err::<bool, Seq<char>>(e@),
        },
{
    let t = trim_str(s);
    if eq_lowercase(t, "true") {
        Ok(true)
    } else if eq_lowercase(t, "false") {
        Ok(false)
    } else {
        Err(String::from_str("expected true/false/yes/no/on/off, got: ").concat(s))
    }
}

/// Read an unsigned 32-bit option value, with white space around it.
pub fn parse_u32(s: &str) -> (r: Result<u32, String>)
    ensures
        match r {
            Ok(n) => u32_result(s@) == Ok::<u32, Seq<char>>(n),
            Err(e) => u32_result(s@) == Err::<u32, Seq<char>>(e@),
        },
{
    let t = trim_str(s);
    let tn = t.unicode_len();
    let d = if tn > 0 && t.get_char(0) == '+' {
        t.substring_char(1, tn)
    } else {
        t
    };
    assert(d@ == unsigned_digits(trim(s@)));
    let n = d.unicode_len();
    if n == 0 {
        return Err(String::from_str("expected integer, got: ").concat(s));
    }
    let mut acc: u64 = 0;
    let mut i: usize = 0;
    assert(d@.take(0) =~= Seq::<char>::empty());
    while i < n
        invariant
            n == d@.len(),
            i <= n,
            acc == digits_value(d@.take(i as int)),
            acc <= u32::MAX,
            all_digits(d@.take(i as int)),
            d@ == unsigned_digits(trim(s@)),
            n > 0,
        decreases n - i,
    {
        let c = d.get_char(i);
        let ghost next = d@.take(i + 1);
        assert(next.drop_last() =~= d@.take(i as int));
        assert(next.last() == c);
        if !('0' <= c && c <= '9') {
            assert(!is_digit(d@[i as int]));
            assert(!all_digits(d@));
            return Err(String::from_str("expected integer, got: ").concat(s));
        }
        let v: u64 = (c as u32 - '0' as u32) as u64;
        assert(v == digit_value(c));
        acc = acc * 10 + v;
        if acc > 4294967295u64 {
            proof {
                lemma_digits_value_prefix(d@, i + 1);
            }
            return Err(String::from_str("expected integer, got: ").concat(s));
        }
        assert(all_digits(next)) by {
            assert forall|j: int| 0 <= j < next.len() implies is_digit(#[trigger] next[j]) by {
                if j < i {
                    assert(next[j] == d@.take(i as int)[j]);
                }
            }
        }
        i = i + 1;
    }
    assert(d@.take(n as int) =~= d@);
    Ok(acc as u32)
}

/// Read one `-o NAME=VALUE` option. The known names take typed values;
/// any other name is kept with its value as given.
pub fn parse_printer_option(s: &str) -> (r: Result<PrinterOption, String>)
    ensures
        match r {
            Ok(o) => printer_option_result(s@) == Ok::<PrinterOptionView, Seq<char>>(o@),
            Err(e) => printer_option_result(s@) == Err::<PrinterOptionView, Seq<char>>(e@),
        },
{
    let len = s.unicode_len();
    let i = match find(s, '=') {
        Some(i) => i,
        None => {
            return Err(String::from_str("expected NAME=VALUE, got: ").concat(s));
        },
    };
    proof {
        lemma_find_char_first(s@, '=');
    }
    let key = s.substring_char(0, i);
    let val = s.substring_char(i + 1, len);
    if str_eq(key, "cupsIPPSupplies") {
        match parse_bool(val) {
            Ok(b) => Ok(PrinterOption::CupsIPPSupplies(b)),
            Err(e) => Err(e),
        }
    } else if str_eq(key, "cupsSNMPSupplies") {
        match parse_bool(val) {
            Ok(b) => Ok(PrinterOption::CupsSNMPSupplies(b)),
            Err(e) => Err(e),
        }
    } else if str_eq(key, "printer-is-shared") {
        match parse_bool(val) {
            Ok(b) => Ok(PrinterOption::PrinterIsShared(b)),
            Err(e) => Err(e),
        }
    } else if str_eq(key, "job-k-limit") {
        match parse_u32(val) {
            Ok(n) => Ok(PrinterOption::JobKLimit(n)),
            Err(e) => Err(e),
        }
    } else if str_eq(key, "job-page-limit") {
        match parse_u32(val) {
            Ok(n) => Ok(PrinterOption::JobPageLimit(n)),
            Err(e) => Err(e),
        }
    } else if str_eq(key, "job-quota-period") {
        match parse_u32(val) {
            Ok(n) => Ok(PrinterOption::JobQuotaPeriod(n)),
            Err(e) => Err(e),
        }
    } else if str_eq(key, "job-sheets-default") {
        Ok(PrinterOption::JobSheetsDefault(String::from_str(val)))
    } else if str_eq(key, "port-monitor") {
        Ok(PrinterOption::PortMonitor(String::from_str(val)))
    } else if str_eq(key, "printer-error-policy") {
        Ok(PrinterOption::PrinterErrorPolicy(String::from_str(val)))
    } else if str_eq(key, "printer-op-policy") {
        Ok(PrinterOption::PrinterOpPolicy(String::from_str(val)))
    } else {
        Ok(PrinterOption::Other { key: String::from_str(key), value: String::from_str(val) })
    }
}

impl Default for PrinterOptions {
    fn default() -> (r: Self)
        ensures
            r@ == no_settings(),
    {
        let r = PrinterOptions {
            cups_ipp_supplies: None,
            cups_snmp_supplies: None,
            printer_is_shared: None,
            job_k_limit: None,
            job_page_limit: None,
            job_quota_period: None,
            job_sheets_default: None,
            port_monitor: None,
            printer_error_policy: None,
            printer_op_policy: None,
            other: Vec::new(),
        };
        assert(r@.other =~= Seq::<(Seq<char>, Seq<char>)>::empty());
        r
    }
}

/// What `From` is held to by vstd is the whole struct's equality with a
/// spec value; for these settings, whose `other` field is a `Vec`, only
/// the value by view can be known, and that is what `from` states.
impl vstd::std_specs::convert::FromSpecImpl<Vec<PrinterOption>> for PrinterOptions {
    open spec fn obeys_from_spec() -> bool {
        false
    }

    open spec fn from_spec(v: Vec<PrinterOption>) -> PrinterOptions {
        choose|r: PrinterOptions| r@ == collect_options(options_view(v@))
    }
}

impl From<Vec<PrinterOption>> for PrinterOptions {
    /// Collect a list of options into settings: a later option replaces an
    /// earlier one of the same kind, and options of no known kind are kept
    /// in order under `other`.
    fn from(opts: Vec<PrinterOption>) -> (r: PrinterOptions)
        ensures
            r@ == collect_options(options_view(opts@)),
    {
        let mut acc = PrinterOptions::default();
        let n = opts.len();
        let ghost l = options_view(opts@);
        let mut i: usize = 0;
        assert(l.take(0) =~= Seq::<PrinterOptionView>::empty());
        while i < n
            invariant
                n == opts@.len(),
                l == options_view(opts@),
                i <= n,
                acc@ == collect_options(l.take(i as int)),
            decreases n - i,
        {
            let ghost before = acc@;
            assert(l.take(i + 1).drop_last() =~= l.take(i as int));
            assert(l.take(i + 1).last() == opts@[i as int]@);
            match &opts[i] {
                PrinterOption::CupsIPPSupplies(v) => {
                    acc.cups_ipp_supplies = Some(*v);
                },
                PrinterOption::CupsSNMPSupplies(v) => {
                    acc.cups_snmp_supplies = Some(*v);
                },
                PrinterOption::PrinterIsShared(v) => {
                    acc.printer_is_shared = Some(*v);
                },
                PrinterOption::JobKLimit(v) => {
                    acc.job_k_limit = Some(*v);
                },
                PrinterOption::JobPageLimit(v) => {
                    acc.job_page_limit = Some(*v);
                },
                PrinterOption::JobQuotaPeriod(v) => {
                    acc.job_quota_period = Some(*v);
                },
                PrinterOption::JobSheetsDefault(v) => {
                    acc.job_sheets_default = Some(v.clone());
                },
                PrinterOption::PortMonitor(v) => {
                    acc.port_monitor = Some(v.clone());
                },
                PrinterOption::PrinterErrorPolicy(v) => {
                    acc.printer_error_policy = Some(v.clone());
                },
                PrinterOption::PrinterOpPolicy(v) => {
                    acc.printer_op_policy = Some(v.clone());
                },
                PrinterOption::Other { key, value } => {
                    acc.other.push((key.clone(), value.clone()));
                    assert(acc@.other =~= before.other.push((key@, value@)));
                },
            }
            assert(acc@ == apply_option(before, opts@[i as int]@));
            i = i + 1;
        }
        assert(l.take(n as int) =~= l);
        acc
    }
}

} // verus!
