//! The administrative IPP requests that go to the CUPS scheduler, as plain
//! values: which operation, which attributes in which group, and where the
//! request is posted. Also the name check for destinations and classes and
//! the decisions taken on what the scheduler reports about a class.
use vstd::prelude::*;
use crate::access_control::{
    access_controls_view, join_principals, join_view, principals_view, AccessControl,
    AccessControlView,
};
use crate::options::{PrinterOptions, PrinterOptionsView};
use crate::text::{find_char, lemma_find_char, lower, lower_char, to_lower_char};

verus! {

/// The attribute group in which an attribute travels.
#[derive(Debug, Clone, Copy, PartialEq, Eq)]
pub enum AttrGroup {
    Operation,
    Printer,
}

/// The administrative operations that this tool sends.
#[derive(Debug, Clone, Copy, PartialEq, Eq)]
pub enum IppOp {
    CupsAddModifyPrinter,
    CupsSetDefault,
    CupsDeletePrinter,
    CupsAddModifyClass,
    CupsDeleteClass,
    EnablePrinter,
    ResumePrinter,
    GetPrinterAttributes,
}

/// An attribute value with its value tag.
#[derive(Debug, Clone, PartialEq, Eq)]
pub enum AttrValue {
    Text(String),
    Name(String),
    Uri(String),
    Keyword(String),
    Uris(Vec<String>),
    Keywords(Vec<String>),
    Integer(i32),
    Boolean(bool),
    /// The `deleteAttr` out-of-band value: remove the attribute's default.
    DeleteAttr,
}

/// One attribute of a request.
#[derive(Debug, Clone, PartialEq, Eq)]
pub struct IppAttr {
    pub group: AttrGroup,
    pub name: String,
    pub value: AttrValue,
}

/// A request to the scheduler: the operation, whether the standard
/// operation attributes (charset, language, requesting user) go first, the
/// attributes in order, the resource it is posted to, and the name under
/// which a failure is reported.
#[derive(Debug, Clone, PartialEq, Eq)]
pub struct AdminRequest {
    pub operation: IppOp,
    pub standard_attrs: bool,
    pub attrs: Vec<IppAttr>,
    pub resource: String,
    pub label: String,
}

/// What becomes of a class when a member leaves it.
#[derive(Debug, Clone, PartialEq, Eq)]
pub enum ClassChange {
    /// The member was the last one: the class goes.
    DeleteClass,
    /// The class keeps these member URIs.
    SetMembers(Vec<String>),
}

pub enum AttrValueView {
    Text(Seq<char>),
    Name(Seq<char>),
    Uri(Seq<char>),
    Keyword(Seq<char>),
    Uris(Seq<Seq<char>>),
    Keywords(Seq<Seq<char>>),
    Integer(i32),
    Boolean(bool),
    DeleteAttr,
}

pub struct IppAttrView {
    pub group: AttrGroup,
    pub name: Seq<char>,
    pub value: AttrValueView,
}

pub struct AdminRequestView {
    pub operation: IppOp,
    pub standard_attrs: bool,
    pub attrs: Seq<IppAttrView>,
    pub resource: Seq<char>,
    pub label: Seq<char>,
}

pub enum ClassChangeView {
    DeleteClass,
    SetMembers(Seq<Seq<char>>),
}

pub open spec fn strings_view(v: Seq<String>) -> Seq<Seq<char>> {
    v.map_values(|s: String| s@)
}

impl View for AttrValue {
    type V = AttrValueView;

    open spec fn view(&self) -> AttrValueView {
        match self {
            AttrValue::Text(s) => AttrValueView::Text(s@),
            AttrValue::Name(s) => AttrValueView::Name(s@),
            AttrValue::Uri(s) => AttrValueView::Uri(s@),
            AttrValue::Keyword(s) => AttrValueView::Keyword(s@),
            AttrValue::Uris(v) => AttrValueView::Uris(strings_view(v@)),
            AttrValue::Keywords(v) => AttrValueView::Keywords(strings_view(v@)),
            AttrValue::Integer(n) => AttrValueView::Integer(*n),
            AttrValue::Boolean(b) => AttrValueView::Boolean(*b),
            AttrValue::DeleteAttr => AttrValueView::DeleteAttr,
        }
    }
}

impl View for IppAttr {
    type V = IppAttrView;

    open spec fn view(&self) -> IppAttrView {
        IppAttrView { group: self.group, name: self.name@, value: self.value@ }
    }
}

pub open spec fn attrs_view(v: Seq<IppAttr>) -> Seq<IppAttrView> {
    v.map_values(|a: IppAttr| a@)
}

impl View for AdminRequest {
    type V = AdminRequestView;

    open spec fn view(&self) -> AdminRequestView {
        AdminRequestView {
            operation: self.operation,
            standard_attrs: self.standard_attrs,
            attrs: attrs_view(self.attrs@),
            resource: self.resource@,
            label: self.label@,
        }
    }
}

impl View for ClassChange {
    type V = ClassChangeView;

    open spec fn view(&self) -> ClassChangeView {
        match self {
            ClassChange::DeleteClass => ClassChangeView::DeleteClass,
            ClassChange::SetMembers(v) => ClassChangeView::SetMembers(strings_view(v@)),
        }
    }
}

pub open spec fn attr_view(group: AttrGroup, name: Seq<char>, value: AttrValueView) -> IppAttrView {
    IppAttrView { group, name, value }
}

/// The URI of a printer on the local scheduler.
pub open spec fn printer_uri_view(printer: Seq<char>) -> Seq<char> {
    "ipp://localhost/printers/"@ + printer
}

/// The URI of a class on the local scheduler.
pub open spec fn class_uri_view(class: Seq<char>) -> Seq<char> {
    "ipp://localhost/classes/"@ + class
}

pub open spec fn request_view(
    operation: IppOp,
    standard_attrs: bool,
    attrs: Seq<IppAttrView>,
    resource: Seq<char>,
    label: Seq<char>,
) -> AdminRequestView {
    AdminRequestView { operation, standard_attrs, attrs, resource, label }
}

/// The `printer-uri` operation attribute that names the target.
pub open spec fn target_attr(uri: Seq<char>) -> IppAttrView {
    attr_view(AttrGroup::Operation, "printer-uri"@, AttrValueView::Uri(uri))
}

/// An administrative request on one target, posted to `/admin/`.
pub open spec fn admin_view(op: IppOp, uri: Seq<char>, rest: Seq<IppAttrView>, label: Seq<char>) -> AdminRequestView {
    request_view(op, true, seq![target_attr(uri)] + rest, "/admin/"@, label)
}

/// How a text value is tagged.
#[derive(Debug, Clone, Copy, PartialEq, Eq)]
pub enum TextKind {
    Uri,
    Name,
    Text,
}

pub open spec fn text_value(kind: TextKind, s: Seq<char>) -> AttrValueView {
    match kind {
        TextKind::Uri => AttrValueView::Uri(s),
        TextKind::Name => AttrValueView::Name(s),
        TextKind::Text => AttrValueView::Text(s),
    }
}

/// A printer attribute for a value given, nothing for one not given.
pub open spec fn opt_attr(name: Seq<char>, v: Option<Seq<char>>, kind: TextKind) -> Seq<IppAttrView> {
    match v {
        Some(s) => seq![attr_view(AttrGroup::Printer, name, text_value(kind, s))],
        None => Seq::empty(),
    }
}

pub open spec fn opt_bool_attr(name: Seq<char>, v: Option<bool>) -> Seq<IppAttrView> {
    match v {
        Some(b) => seq![attr_view(AttrGroup::Printer, name, AttrValueView::Boolean(b))],
        None => Seq::empty(),
    }
}

pub open spec fn opt_int_attr(name: Seq<char>, v: Option<u32>) -> Seq<IppAttrView> {
    match v {
        Some(n) => seq![attr_view(AttrGroup::Printer, name, AttrValueView::Integer(n as i32))],
        None => Seq::empty(),
    }
}

/// The printer attributes that the settings send, in this order: the three
/// booleans, the three limits (as 32-bit signed integers) and the four
/// names. Options without a setting of their own are not sent.
pub open spec fn option_attrs(o: PrinterOptionsView) -> Seq<IppAttrView> {
    bool_option_attrs(o) + int_option_attrs(o) + name_option_attrs(o)
}

pub open spec fn bool_option_attrs(o: PrinterOptionsView) -> Seq<IppAttrView> {
    opt_bool_attr("cupsIPPSupplies"@, o.cups_ipp_supplies) + opt_bool_attr(
        "cupsSNMPSupplies"@,
        o.cups_snmp_supplies,
    ) + opt_bool_attr("printer-is-shared"@, o.printer_is_shared)
}

pub open spec fn int_option_attrs(o: PrinterOptionsView) -> Seq<IppAttrView> {
    opt_int_attr("job-k-limit"@, o.job_k_limit) + opt_int_attr(
        "job-page-limit"@,
        o.job_page_limit,
    ) + opt_int_attr("job-quota-period"@, o.job_quota_period)
}

pub open spec fn name_option_attrs(o: PrinterOptionsView) -> Seq<IppAttrView> {
    opt_attr("job-sheets-default"@, o.job_sheets_default, TextKind::Name) + opt_attr(
        "port-monitor"@,
        o.port_monitor,
        TextKind::Name,
    ) + opt_attr("printer-error-policy"@, o.printer_error_policy, TextKind::Name)
        + opt_attr("printer-op-policy"@, o.printer_op_policy, TextKind::Name)
}

/// The operation attribute that one access-control rule sends.
pub open spec fn rule_attr(r: AccessControlView) -> IppAttrView {
    match r {
        AccessControlView::AllowAll => attr_view(
            AttrGroup::Operation,
            "requesting-user-name-allowed"@,
            AttrValueView::Name("all"@),
        ),
        AccessControlView::DenyNone => attr_view(
            AttrGroup::Operation,
            "requesting-user-name-denied"@,
            AttrValueView::Name("none"@),
        ),
        AccessControlView::Allow(l) => attr_view(
            AttrGroup::Operation,
            "requesting-user-name-allowed"@,
            AttrValueView::Name(join_view(l)),
        ),
        AccessControlView::Deny(l) => attr_view(
            AttrGroup::Operation,
            "requesting-user-name-denied"@,
            AttrValueView::Name(join_view(l)),
        ),
    }
}

pub open spec fn access_attrs(l: Seq<AccessControlView>) -> Seq<IppAttrView> {
    l.map_values(|r: AccessControlView| rule_attr(r))
}

pub open spec fn str_opt_view(o: Option<&str>) -> Option<Seq<char>> {
    match o {
        Some(s) => Some(s@),
        None => None,
    }
}

/// The printer attributes of `-v`, `-m`, `-D` and `-L`, in this order.
pub open spec fn description_attrs(
    device_uri: Option<Seq<char>>,
    model: Option<Seq<char>>,
    description: Option<Seq<char>>,
    location: Option<Seq<char>>,
) -> Seq<IppAttrView> {
    opt_attr("device-uri"@, device_uri, TextKind::Uri) + opt_attr(
        "ppd-name"@,
        model,
        TextKind::Name,
    ) + opt_attr("printer-info"@, description, TextKind::Text) + opt_attr(
        "printer-location"@,
        location,
        TextKind::Text,
    )
}

/// Each access-control rule is sent as one operation attribute, in the
/// order of the rules: a deny rule (`deny:none` or `deny:...`) as
/// `requesting-user-name-denied`, an allow rule as
/// `requesting-user-name-allowed`, with the value `all`, `none` or the
/// comma-separated principals.
pub proof fn lemma_access_attrs(l: Seq<AccessControlView>)
    ensures
        access_attrs(l).len() == l.len(),
        forall|k: int|
            0 <= k < l.len() ==> {
                let a = #[trigger] access_attrs(l)[k];
                &&& a.group == AttrGroup::Operation
                &&& (l[k] is Deny || l[k] is DenyNone) ==> a.name == "requesting-user-name-denied"@
                &&& (l[k] is Allow || l[k] is AllowAll) ==> a.name
                    == "requesting-user-name-allowed"@
                &&& l[k] is AllowAll ==> a.value == AttrValueView::Name("all"@)
                &&& l[k] is DenyNone ==> a.value == AttrValueView::Name("none"@)
                &&& l[k] matches AccessControlView::Allow(p) ==> a.value == AttrValueView::Name(
                    join_view(p),
                )
                &&& l[k] matches AccessControlView::Deny(p) ==> a.value == AttrValueView::Name(
                    join_view(p),
                )
            },
{
}

/// A rule read from `-u deny:...` is sent as `requesting-user-name-denied`
/// and one read from `-u allow:...` as `requesting-user-name-allowed`.
pub proof fn lemma_access_attr_follows_prefix(s: Seq<char>, r: AccessControlView)
    requires
        crate::access_control::access_control_result(s) == Ok::<AccessControlView, Seq<char>>(r),
    ensures
        crate::text::has_prefix(s, "deny:"@) ==> rule_attr(r).name == "requesting-user-name-denied"@,
        crate::text::has_prefix(s, "allow:"@) ==> rule_attr(r).name
            == "requesting-user-name-allowed"@,
{
    reveal_strlit("allow:");
    reveal_strlit("deny:");
    if crate::text::has_prefix(s, "deny:"@) {
        assert(s.take(5)[0] == 'd');
        if crate::text::has_prefix(s, "allow:"@) {
            assert(s.take(6)[0] == 'a');
            assert(s[0] == 'a');
            assert(s[0] == 'd');
        }
    }
}

/// The CUPS-ADD-MODIFY-PRINTER request.
pub open spec fn add_or_modify_view(
    printer: Seq<char>,
    device_uri: Option<Seq<char>>,
    model: Option<Seq<char>>,
    description: Option<Seq<char>>,
    location: Option<Seq<char>>,
    opts: PrinterOptionsView,
    access: Seq<AccessControlView>,
) -> AdminRequestView {
    admin_view(
        IppOp::CupsAddModifyPrinter,
        printer_uri_view(printer),
        description_attrs(device_uri, model, description, location) + option_attrs(opts)
            + access_attrs(access),
        "CUPS-ADD-MODIFY-PRINTER"@,
    )
}

/// The members of a class after a printer is added: unchanged where it is
/// one already, else with it at the end.
pub open spec fn add_member(members: Seq<Seq<char>>, uri: Seq<char>) -> Seq<Seq<char>> {
    if members.contains(uri) {
        members
    } else {
        members.push(uri)
    }
}

/// `names[i]` is the first name equal to `printer` up to ASCII case.
pub open spec fn is_first_match(names: Seq<Seq<char>>, printer: Seq<char>, i: int) -> bool {
    &&& 0 <= i < names.len()
    &&& lower(names[i]) == lower(printer)
    &&& forall|j: int| 0 <= j < i ==> lower(#[trigger] names[j]) != lower(printer)
}

/// The position of the first name equal to `printer` up to ASCII case.
pub open spec fn first_match(names: Seq<Seq<char>>, printer: Seq<char>) -> Option<int> {
    if exists|i: int| is_first_match(names, printer, i) {
        Some(choose|i: int| is_first_match(names, printer, i))
    } else {
        None
    }
}

/// The member URIs without the one at position `i`.
pub open spec fn without_index(uris: Seq<Seq<char>>, i: int) -> Seq<Seq<char>> {
    if 0 <= i < uris.len() {
        uris.take(i) + uris.skip(i + 1)
    } else {
        uris
    }
}

/// What becomes of a class from which `printer` is to be removed, given
/// the member names and URIs that the scheduler reports.
pub open spec fn removal_result(
    names: Option<Seq<Seq<char>>>,
    uris: Seq<Seq<char>>,
    printer: Seq<char>,
    class: Seq<char>,
) -> Result<ClassChangeView, Seq<char>> {
    match names {
        None => Err("lpadmin-rs: No member names were seen."@),
        Some(n) => match first_match(n, printer) {
            None => Err(
                "lpadmin-rs: Printer "@ + printer + " is not a member of class "@ + class + "."@,
            ),
            Some(i) => if n.len() == 1 {
                Ok(ClassChangeView::DeleteClass)
            } else {
                Ok(ClassChangeView::SetMembers(without_index(uris, i)))
            },
        },
    }
}

/// `kept` is `uris` without the URI at position `i` (all of `uris` where
/// there is none there), in order.
pub open spec fn all_but(uris: Seq<Seq<char>>, i: int, kept: Seq<Seq<char>>) -> bool {
    if 0 <= i < uris.len() {
        &&& kept.len() == uris.len() - 1
        &&& forall|k: int| 0 <= k < i ==> #[trigger] kept[k] == uris[k]
        &&& forall|k: int| i <= k < kept.len() ==> #[trigger] kept[k] == uris[k + 1]
    } else {
        kept == uris
    }
}

/// Removing a member from a class with two or more reported member names
/// keeps the class, with every member URI but the one at the position of
/// the first name that matches the printer (up to ASCII case), in order.
/// The class is deleted only where the printer is its one reported name;
/// a printer that no name matches changes nothing.
pub proof fn lemma_class_removal(
    names: Seq<Seq<char>>,
    uris: Seq<Seq<char>>,
    printer: Seq<char>,
    class: Seq<char>,
    i: int,
)
    requires
        0 <= i < names.len(),
        lower(names[i]) == lower(printer),
        forall|j: int| 0 <= j < i ==> lower(#[trigger] names[j]) != lower(printer),
    ensures
        names.len() == 1 ==> removal_result(Some(names), uris, printer, class) == Ok::<
            ClassChangeView,
            Seq<char>,
        >(ClassChangeView::DeleteClass),
        names.len() >= 2 ==> ({
            &&& removal_result(Some(names), uris, printer, class) matches Ok(
                ClassChangeView::SetMembers(kept),
            )
            &&& all_but(uris, i, kept)
        }),
{
    assert(is_first_match(names, printer, i));
    let k = choose|k: int| is_first_match(names, printer, k);
    if k < i {
        assert(lower(names[k]) != lower(printer));
    }
    if k > i {
        assert(lower(names[i]) != lower(printer));
    }
    assert(first_match(names, printer) == Some(i));
    if names.len() >= 2 && i < uris.len() {
        let kept = uris.take(i) + uris.skip(i + 1);
        assert forall|k: int| i <= k < kept.len() implies #[trigger] kept[k] == uris[k + 1] by {}
    }
}

/// The class is deleted only where exactly one member name is reported,
/// and a printer that no reported name matches is refused.
pub proof fn lemma_class_removal_outcomes(
    names: Seq<Seq<char>>,
    uris: Seq<Seq<char>>,
    printer: Seq<char>,
    class: Seq<char>,
)
    ensures
        removal_result(Some(names), uris, printer, class) == Ok::<ClassChangeView, Seq<char>>(
            ClassChangeView::DeleteClass,
        ) ==> names.len() == 1,
        (forall|j: int| 0 <= j < names.len() ==> lower(#[trigger] names[j]) != lower(printer))
            ==> removal_result(Some(names), uris, printer, class) is Err,
        removal_result(None, uris, printer, class) is Err,
{
    if forall|j: int| 0 <= j < names.len() ==> lower(#[trigger] names[j]) != lower(printer) {
        assert(!exists|k: int| is_first_match(names, printer, k));
    }
}

/// The request that carries out a change of class membership.
pub open spec fn class_change_view(class: Seq<char>, change: ClassChangeView) -> AdminRequestView {
    match change {
        ClassChangeView::DeleteClass => admin_view(
            IppOp::CupsDeleteClass,
            class_uri_view(class),
            Seq::empty(),
            "CUPS-DELETE-CLASS"@,
        ),
        ClassChangeView::SetMembers(m) => admin_view(
            IppOp::CupsAddModifyClass,
            class_uri_view(class),
            seq![attr_view(AttrGroup::Printer, "member-uris"@, AttrValueView::Uris(m))],
            "CUPS-ADD-MODIFY-CLASS"@,
        ),
    }
}

/// The reported `printer-type` marks a class (bit `CUPS_PRINTER_CLASS`).
pub open spec fn is_class_type(printer_type: Option<i32>) -> bool {
    match printer_type {
        Some(v) => (v as u32) % 2 == 1,
        None => false,
    }
}

/// A reported `printer-type` marks a class exactly when its
/// `CUPS_PRINTER_CLASS` bit (bit 0) is set, so no other bit (default,
/// colour, remote, ...) changes the answer.
pub proof fn lemma_class_bit(v: i32, w: i32)
    ensures
        is_class_type(Some(v)) == ((v as u32) & 1u32 == 1u32),
        (v as u32) & 1u32 == (w as u32) & 1u32 ==> is_class_type(Some(v)) == is_class_type(
            Some(w),
        ),
        !is_class_type(None),
{
    let x = v as u32;
    let y = w as u32;
    assert((x % 2 == 1) == (x & 1u32 == 1u32)) by (bit_vector);
    assert((y % 2 == 1) == (y & 1u32 == 1u32)) by (bit_vector);
}

/// A character that a destination or class name may not hold: controls,
/// space, DEL, and `/ \ ? ' " #`.
pub open spec fn forbidden_in_name(c: char) -> bool {
    ||| c <= ' '
    ||| c == '\u{7f}'
    ||| c == '/'
    ||| c == '\\'
    ||| c == '?'
    ||| c == '\''
    ||| c == '"'
    ||| c == '#'
}

/// The part of a name that is checked: all of it up to the first `@`.
pub open spec fn name_part_len(s: Seq<char>) -> int {
    match find_char(s, '@') {
        Some(i) => i,
        None => s.len() as int,
    }
}

/// A valid destination or class name: before any `@`, fewer than 128
/// characters and none of them forbidden.
pub open spec fn valid_name(s: Seq<char>) -> bool {
    &&& forall|i: int| 0 <= i < name_part_len(s) ==> !forbidden_in_name(#[trigger] s[i])
    &&& name_part_len(s) < 128
}

/// Only the part of a name before its first `@` is checked: whatever
/// follows the `@` neither makes a name valid nor invalid.
pub proof fn lemma_valid_name_ignores_instance(s: Seq<char>, t: Seq<char>)
    requires
        !s.contains('@'),
    ensures
        valid_name(s + seq!['@'] + t) == valid_name(s),
{
    let u = s + seq!['@'] + t;
    assert forall|j: int| 0 <= j < s.len() implies #[trigger] u[j] != '@' && u[j] == s[j] by {
        assert(u[j] == s[j]);
    }
    lemma_find_char(u, '@', s.len() as int);
    assert forall|j: int| 0 <= j < s.len() implies #[trigger] s[j] != '@' by {}
    lemma_find_char(s, '@', s.len() as int);
    assert(name_part_len(u) == name_part_len(s));
    assert((forall|i: int| 0 <= i < name_part_len(u) ==> !forbidden_in_name(#[trigger] u[i])) == (
    forall|i: int| 0 <= i < name_part_len(s) ==> !forbidden_in_name(#[trigger] s[i]))) by {
        assert forall|i: int| 0 <= i < name_part_len(s) implies u[i] == s[i] by {}
    }
}

/// Validate destination/class name
pub fn validate_name(name: &str) -> (r: bool)
    ensures
        r == valid_name(name@),
{
    let n = name.unicode_len();
    let mut len: usize = 0;
    let mut i: usize = 0;
    while i < n
        invariant
            n == name@.len(),
            i <= n,
            len == i,
            forall|j: int| 0 <= j < i ==> #[trigger] name@[j] != '@',
            forall|j: int| 0 <= j < i ==> !forbidden_in_name(#[trigger] name@[j]),
        ensures
            i <= n,
            len == i,
            forall|j: int| 0 <= j < i ==> #[trigger] name@[j] != '@',
            forall|j: int| 0 <= j < i ==> !forbidden_in_name(#[trigger] name@[j]),
            i == n || name@[i as int] == '@',
        decreases n - i,
    {
        let ch = name.get_char(i);
        if ch == '@' {
            break;
        }
        if ch <= ' ' || ch == '\u{7f}' || ch == '/' || ch == '\\' || ch == '?' || ch == '\''
            || ch == '"' || ch == '#' {
            proof {
                lemma_find_char(name@, '@', i as int);
                let k = name_part_len(name@);
                if k < 128 {
                    crate::text::lemma_find_char_first(name@, '@');
                    assert(i < k);
                    assert(forbidden_in_name(name@[i as int]));
                }
            }
            return false;
        }
        len = len + 1;
        i = i + 1;
    }
    proof {
        lemma_find_char(name@, '@', i as int);
    }
    len < 128
}

/// Refuse a class name that is not valid, before a class is changed.
pub fn class_name_check(class: &str) -> (r: Result<(), String>)
    ensures
        r is Ok <==> valid_name(class@),
        r matches Err(e) ==> e@ == "lpadmin-rs: Class name can only contain printable characters."@,
{
    if validate_name(class) {
        Ok(())
    } else {
        Err(String::from_str("lpadmin-rs: Class name can only contain printable characters."))
    }
}

/// The URI of a printer on the local scheduler.
pub fn printer_uri(printer: &str) -> (r: String)
    ensures
        r@ == printer_uri_view(printer@),
{
    String::from_str("ipp://localhost/printers/").concat(printer)
}

/// The URI of a class on the local scheduler.
pub fn class_uri(class: &str) -> (r: String)
    ensures
        r@ == class_uri_view(class@),
{
    String::from_str("ipp://localhost/classes/").concat(class)
}

fn push_attr(attrs: &mut Vec<IppAttr>, group: AttrGroup, name: &str, value: AttrValue)
    ensures
        attrs_view(final(attrs)@) == attrs_view(old(attrs)@).push(
            attr_view(group, name@, value@),
        ),
{
    attrs.push(IppAttr { group, name: String::from_str(name), value });
    assert(attrs_view(attrs@) =~= attrs_view(old(attrs)@).push(attr_view(group, name@, value@)));
}

fn push_opt_bool(attrs: &mut Vec<IppAttr>, name: &str, v: Option<bool>)
    ensures
        attrs_view(final(attrs)@) == attrs_view(old(attrs)@) + opt_bool_attr(name@, v),
{
    match v {
        Some(b) => push_attr(attrs, AttrGroup::Printer, name, AttrValue::Boolean(b)),
        None => {},
    }
    assert(attrs_view(attrs@) =~= attrs_view(old(attrs)@) + opt_bool_attr(name@, v));
}

fn push_opt_int(attrs: &mut Vec<IppAttr>, name: &str, v: Option<u32>)
    ensures
        attrs_view(final(attrs)@) == attrs_view(old(attrs)@) + opt_int_attr(name@, v),
{
    match v {
        Some(n) => push_attr(attrs, AttrGroup::Printer, name, AttrValue::Integer(n as i32)),
        None => {},
    }
    assert(attrs_view(attrs@) =~= attrs_view(old(attrs)@) + opt_int_attr(name@, v));
}

fn push_opt_name(attrs: &mut Vec<IppAttr>, name: &str, v: &Option<String>)
    ensures
        attrs_view(final(attrs)@) == attrs_view(old(attrs)@) + opt_attr(
            name@,
            crate::options::opt_str_view(*v),
            TextKind::Name,
        ),
{
    match v {
        Some(s) => push_attr(attrs, AttrGroup::Printer, name, AttrValue::Name(s.clone())),
        None => {},
    }
    assert(attrs_view(attrs@) =~= attrs_view(old(attrs)@) + opt_attr(
        name@,
        crate::options::opt_str_view(*v),
        TextKind::Name,
    ));
}

fn push_opt_str(attrs: &mut Vec<IppAttr>, name: &str, v: Option<&str>, kind: TextKind)
    ensures
        attrs_view(final(attrs)@) == attrs_view(old(attrs)@) + opt_attr(name@, str_opt_view(v), kind),
{
    match v {
        Some(s) => {
            let value = match kind {
                TextKind::Uri => AttrValue::Uri(String::from_str(s)),
                TextKind::Name => AttrValue::Name(String::from_str(s)),
                TextKind::Text => AttrValue::Text(String::from_str(s)),
            };
            push_attr(attrs, AttrGroup::Printer, name, value);
        },
        None => {},
    }
    assert(attrs_view(attrs@) =~= attrs_view(old(attrs)@) + opt_attr(name@, str_opt_view(v), kind));
}

fn push_description(
    attrs: &mut Vec<IppAttr>,
    device_uri: Option<&str>,
    model: Option<&str>,
    description: Option<&str>,
    location: Option<&str>,
)
    ensures
        attrs_view(final(attrs)@) == attrs_view(old(attrs)@) + description_attrs(
            str_opt_view(device_uri),
            str_opt_view(model),
            str_opt_view(description),
            str_opt_view(location),
        ),
{
    let ghost a0 = attrs_view(attrs@);
    push_opt_str(attrs, "device-uri", device_uri, TextKind::Uri);
    push_opt_str(attrs, "ppd-name", model, TextKind::Name);
    push_opt_str(attrs, "printer-info", description, TextKind::Text);
    push_opt_str(attrs, "printer-location", location, TextKind::Text);
    assert(attrs_view(attrs@) =~= a0 + description_attrs(
        str_opt_view(device_uri),
        str_opt_view(model),
        str_opt_view(description),
        str_opt_view(location),
    ));
}

fn push_bool_options(attrs: &mut Vec<IppAttr>, opts: &PrinterOptions)
    ensures
        attrs_view(final(attrs)@) == attrs_view(old(attrs)@) + bool_option_attrs(opts@),
{
    let ghost a0 = attrs_view(attrs@);
    push_opt_bool(attrs, "cupsIPPSupplies", opts.cups_ipp_supplies);
    push_opt_bool(attrs, "cupsSNMPSupplies", opts.cups_snmp_supplies);
    push_opt_bool(attrs, "printer-is-shared", opts.printer_is_shared);
    assert(attrs_view(attrs@) =~= a0 + bool_option_attrs(opts@));
}

fn push_int_options(attrs: &mut Vec<IppAttr>, opts: &PrinterOptions)
    ensures
        attrs_view(final(attrs)@) == attrs_view(old(attrs)@) + int_option_attrs(opts@),
{
    let ghost a0 = attrs_view(attrs@);
    push_opt_int(attrs, "job-k-limit", opts.job_k_limit);
    push_opt_int(attrs, "job-page-limit", opts.job_page_limit);
    push_opt_int(attrs, "job-quota-period", opts.job_quota_period);
    assert(attrs_view(attrs@) =~= a0 + int_option_attrs(opts@));
}

fn push_name_options(attrs: &mut Vec<IppAttr>, opts: &PrinterOptions)
    ensures
        attrs_view(final(attrs)@) == attrs_view(old(attrs)@) + name_option_attrs(opts@),
{
    let ghost a0 = attrs_view(attrs@);
    push_opt_name(attrs, "job-sheets-default", &opts.job_sheets_default);
    push_opt_name(attrs, "port-monitor", &opts.port_monitor);
    push_opt_name(attrs, "printer-error-policy", &opts.printer_error_policy);
    push_opt_name(attrs, "printer-op-policy", &opts.printer_op_policy);
    assert(attrs_view(attrs@) =~= a0 + name_option_attrs(opts@));
}

/// Add the printer attributes for the settings (`-o`).
pub fn apply_printer_options(attrs: &mut Vec<IppAttr>, opts: &PrinterOptions)
    ensures
        attrs_view(final(attrs)@) == attrs_view(old(attrs)@) + option_attrs(opts@),
{
    let ghost a0 = attrs_view(attrs@);
    push_bool_options(attrs, opts);
    push_int_options(attrs, opts);
    push_name_options(attrs, opts);
    assert(attrs_view(attrs@) =~= a0 + option_attrs(opts@));
}

/// Add one operation attribute per access-control rule (`-u`).
pub fn apply_access_control(attrs: &mut Vec<IppAttr>, access: &[AccessControl])
    ensures
        attrs_view(final(attrs)@) == attrs_view(old(attrs)@) + access_attrs(
            access_controls_view(access@),
        ),
{
    let ghost a0 = attrs_view(attrs@);
    let ghost l = access_controls_view(access@);
    let n = access.len();
    let mut i: usize = 0;
    assert(access_attrs(l.take(0)) =~= Seq::<IppAttrView>::empty());
    assert(a0 + Seq::<IppAttrView>::empty() =~= a0);
    while i < n
        invariant
            n == access@.len(),
            l == access_controls_view(access@),
            i <= n,
            attrs_view(attrs@) == a0 + access_attrs(l.take(i as int)),
        decreases n - i,
    {
        let ghost before = attrs_view(attrs@);
        match &access[i] {
            AccessControl::AllowAll => {
                push_attr(
                    attrs,
                    AttrGroup::Operation,
                    "requesting-user-name-allowed",
                    AttrValue::Name(String::from_str("all")),
                );
            },
            AccessControl::DenyNone => {
                push_attr(
                    attrs,
                    AttrGroup::Operation,
                    "requesting-user-name-denied",
                    AttrValue::Name(String::from_str("none")),
                );
            },
            AccessControl::Allow(list) => {
                let value = join_principals(list.as_slice());
                push_attr(
                    attrs,
                    AttrGroup::Operation,
                    "requesting-user-name-allowed",
                    AttrValue::Name(value),
                );
            },
            AccessControl::Deny(list) => {
                let value = join_principals(list.as_slice());
                push_attr(
                    attrs,
                    AttrGroup::Operation,
                    "requesting-user-name-denied",
                    AttrValue::Name(value),
                );
            },
        }
        proof {
            assert(l[i as int] == access@[i as int]@);
            assert(access_attrs(l.take(i + 1)) =~= access_attrs(l.take(i as int)).push(
                rule_attr(l[i as int]),
            ));
            assert(attrs_view(attrs@) =~= a0 + access_attrs(l.take(i + 1)));
        }
        i = i + 1;
    }
    assert(l.take(n as int) =~= l);
}

fn admin_request(op: IppOp, uri: String, label: &str) -> (r: AdminRequest)
    ensures
        r@ == admin_view(op, uri@, Seq::empty(), label@),
{
    let mut attrs: Vec<IppAttr> = Vec::new();
    push_attr(&mut attrs, AttrGroup::Operation, "printer-uri", AttrValue::Uri(uri));
    let r = AdminRequest {
        operation: op,
        standard_attrs: true,
        attrs,
        resource: String::from_str("/admin/"),
        label: String::from_str(label),
    };
    assert(r@.attrs =~= seq![target_attr(uri@)] + Seq::<IppAttrView>::empty());
    r
}

/// The CUPS-ADD-MODIFY-PRINTER request of `-p` with its `-v`, `-m`, `-D`,
/// `-L`, `-o` and `-u` values.
pub fn add_or_modify_printer_request(
    printer: &str,
    device_uri: Option<&str>,
    model: Option<&str>,
    description: Option<&str>,
    location: Option<&str>,
    opts: &PrinterOptions,
    access: &[AccessControl],
) -> (r: AdminRequest)
    ensures
        r@ == add_or_modify_view(
            printer@,
            str_opt_view(device_uri),
            str_opt_view(model),
            str_opt_view(description),
            str_opt_view(location),
            opts@,
            access_controls_view(access@),
        ),
{
    let mut request = admin_request(
        IppOp::CupsAddModifyPrinter,
        printer_uri(printer),
        "CUPS-ADD-MODIFY-PRINTER",
    );
    let ghost a0 = attrs_view(request.attrs@);
    push_description(&mut request.attrs, device_uri, model, description, location);
    apply_printer_options(&mut request.attrs, opts);
    apply_access_control(&mut request.attrs, access);
    let ghost d = description_attrs(
        str_opt_view(device_uri),
        str_opt_view(model),
        str_opt_view(description),
        str_opt_view(location),
    );
    assert(request@.attrs =~= a0 + (d + option_attrs(opts@) + access_attrs(
        access_controls_view(access@),
    )));
    request
}

/// The CUPS-SET-DEFAULT request of `-d`.
pub fn set_default_printer_request(printer: &str) -> (r: AdminRequest)
    ensures
        r@ == admin_view(
            IppOp::CupsSetDefault,
            printer_uri_view(printer@),
            Seq::empty(),
            "CUPS-SET-DEFAULT"@,
        ),
{
    admin_request(IppOp::CupsSetDefault, printer_uri(printer), "CUPS-SET-DEFAULT")
}

/// The CUPS-DELETE-PRINTER request of `-x`.
pub fn delete_printer_request(printer: &str) -> (r: AdminRequest)
    ensures
        r@ == admin_view(
            IppOp::CupsDeletePrinter,
            printer_uri_view(printer@),
            Seq::empty(),
            "CUPS-DELETE-PRINTER"@,
        ),
{
    admin_request(IppOp::CupsDeletePrinter, printer_uri(printer), "CUPS-DELETE-PRINTER")
}

/// The two requests of `-E` with `-p`: IPP-ENABLE-PRINTER, then
/// IPP-RESUME-PRINTER.
pub fn enable_printer_requests(printer: &str) -> (r: (AdminRequest, AdminRequest))
    ensures
        r.0@ == admin_view(
            IppOp::EnablePrinter,
            printer_uri_view(printer@),
            Seq::empty(),
            "IPP-ENABLE-PRINTER"@,
        ),
        r.1@ == admin_view(
            IppOp::ResumePrinter,
            printer_uri_view(printer@),
            Seq::empty(),
            "IPP-RESUME-PRINTER"@,
        ),
{
    (
        admin_request(IppOp::EnablePrinter, printer_uri(printer), "IPP-ENABLE-PRINTER"),
        admin_request(IppOp::ResumePrinter, printer_uri(printer), "IPP-RESUME-PRINTER"),
    )
}

/// The GET-PRINTER-ATTRIBUTES request that asks for a class's members on
/// behalf of `user`, posted to `/` without the standard attributes.
pub fn class_members_request(class: &str, user: &str) -> (r: AdminRequest)
    ensures
        r@ == request_view(
            IppOp::GetPrinterAttributes,
            false,
            seq![
                target_attr(class_uri_view(class@)),
                attr_view(AttrGroup::Operation, "requesting-user-name"@, AttrValueView::Name(user@)),
            ],
            "/"@,
            "GET-PRINTER-ATTRIBUTES"@,
        ),
{
    let mut attrs: Vec<IppAttr> = Vec::new();
    push_attr(&mut attrs, AttrGroup::Operation, "printer-uri", AttrValue::Uri(class_uri(class)));
    push_attr(
        &mut attrs,
        AttrGroup::Operation,
        "requesting-user-name",
        AttrValue::Name(String::from_str(user)),
    );
    let r = AdminRequest {
        operation: IppOp::GetPrinterAttributes,
        standard_attrs: false,
        attrs,
        resource: String::from_str("/"),
        label: String::from_str("GET-PRINTER-ATTRIBUTES"),
    };
    assert(r@.attrs =~= seq![
        target_attr(class_uri_view(class@)),
        attr_view(AttrGroup::Operation, "requesting-user-name"@, AttrValueView::Name(user@)),
    ]);
    r
}

/// The members that a class query reported: none where it failed.
pub open spec fn reported_members(reported: Option<Vec<String>>) -> Seq<Seq<char>> {
    match reported {
        Some(v) => strings_view(v@),
        None => Seq::empty(),
    }
}

/// The members of a class with `printer` added: the members that the
/// class query reported (none where the query failed), and the printer's
/// URI at the end where it is not among them.
pub fn add_class_member(reported: Option<Vec<String>>, printer: &str) -> (r: Vec<String>)
    ensures
        strings_view(r@) == add_member(reported_members(reported), printer_uri_view(printer@)),
{
    let ghost rm = reported_members(reported);
    let existing = match reported {
        Some(v) => v,
        None => Vec::new(),
    };
    assert(strings_view(existing@) =~= rm);
    let uri = printer_uri(printer);
    let ghost m = strings_view(existing@);
    let n = existing.len();
    let mut i: usize = 0;
    while i < n
        invariant
            n == existing@.len(),
            m == strings_view(existing@),
            i <= n,
            forall|j: int| 0 <= j < i ==> m[j] != uri@,
            uri@ == printer_uri_view(printer@),
            m == rm,
            rm == reported_members(reported),
        decreases n - i,
    {
        if existing[i] == uri {
            assert(m.contains(uri@)) by {
                assert(m[i as int] == uri@);
            }
            return existing;
        }
        i = i + 1;
    }
    assert(!m.contains(uri@));
    let mut members = existing;
    members.push(uri);
    assert(strings_view(members@) =~= m.push(printer_uri_view(printer@)));
    members
}

/// Adding a printer to a class is idempotent and keeps the members that
/// were there: after it, the printer's URI is a member, every earlier
/// member still is, and adding the same printer again changes nothing.
pub proof fn lemma_add_member(members: Seq<Seq<char>>, uri: Seq<char>)
    ensures
        add_member(members, uri).contains(uri),
        forall|i: int| 0 <= i < members.len() ==> add_member(members, uri)[i] == members[i],
        add_member(add_member(members, uri), uri) == add_member(members, uri),
{
    if !members.contains(uri) {
        assert(members.push(uri)[members.len() as int] == uri);
    }
}

/// The CUPS-ADD-MODIFY-CLASS request that sets a class's member URIs.
pub fn class_members_update_request(class: &str, members: Vec<String>) -> (r: AdminRequest)
    ensures
        r@ == class_change_view(class@, ClassChangeView::SetMembers(strings_view(members@))),
{
    let mut r = admin_request(IppOp::CupsAddModifyClass, class_uri(class), "CUPS-ADD-MODIFY-CLASS");
    let ghost a0 = attrs_view(r.attrs@);
    let ghost mv = strings_view(members@);
    push_attr(&mut r.attrs, AttrGroup::Printer, "member-uris", AttrValue::Uris(members));
    assert(r@.attrs =~= seq![target_attr(class_uri_view(class@))] + seq![
        attr_view(AttrGroup::Printer, "member-uris"@, AttrValueView::Uris(mv)),
    ]);
    r
}

/// The request that carries out a change of class membership.
pub fn class_change_request(class: &str, change: ClassChange) -> (r: AdminRequest)
    ensures
        r@ == class_change_view(class@, change@),
{
    match change {
        ClassChange::DeleteClass => admin_request(
            IppOp::CupsDeleteClass,
            class_uri(class),
            "CUPS-DELETE-CLASS",
        ),
        ClassChange::SetMembers(m) => class_members_update_request(class, m),
    }
}

/// The GET-PRINTER-ATTRIBUTES request for a class's member names and URIs.
pub fn class_members_detail_request(class: &str) -> (r: AdminRequest)
    ensures
        r@ == request_view(
            IppOp::GetPrinterAttributes,
            true,
            seq![
                target_attr(class_uri_view(class@)),
                attr_view(
                    AttrGroup::Operation,
                    "requested-attributes"@,
                    AttrValueView::Keywords(seq!["member-names"@, "member-uris"@]),
                ),
            ],
            "/"@,
            "GET-PRINTER-ATTRIBUTES"@,
        ),
{
    let mut keywords: Vec<String> = Vec::new();
    keywords.push(String::from_str("member-names"));
    keywords.push(String::from_str("member-uris"));
    let ghost kv = strings_view(keywords@);
    assert(kv =~= seq!["member-names"@, "member-uris"@]);
    let mut attrs: Vec<IppAttr> = Vec::new();
    push_attr(&mut attrs, AttrGroup::Operation, "printer-uri", AttrValue::Uri(class_uri(class)));
    push_attr(&mut attrs, AttrGroup::Operation, "requested-attributes", AttrValue::Keywords(keywords));
    let r = AdminRequest {
        operation: IppOp::GetPrinterAttributes,
        standard_attrs: true,
        attrs,
        resource: String::from_str("/"),
        label: String::from_str("GET-PRINTER-ATTRIBUTES"),
    };
    assert(r@.attrs =~= seq![
        target_attr(class_uri_view(class@)),
        attr_view(AttrGroup::Operation, "requested-attributes"@, AttrValueView::Keywords(kv)),
    ]);
    r
}

/// `a` and `b` are equal up to ASCII case (`str::eq_ignore_ascii_case`).
pub fn eq_ignore_ascii_case(a: &str, b: &str) -> (r: bool)
    ensures
        r == (lower(a@) == lower(b@)),
{
    let n = a.unicode_len();
    if n != b.unicode_len() {
        assert(lower(a@).len() != lower(b@).len());
        return false;
    }
    let mut i: usize = 0;
    while i < n
        invariant
            n == a@.len() == b@.len(),
            i <= n,
            forall|j: int| 0 <= j < i ==> lower_char(a@[j]) == lower_char(b@[j]),
        decreases n - i,
    {
        if to_lower_char(a.get_char(i)) != to_lower_char(b.get_char(i)) {
            assert(lower(a@)[i as int] != lower(b@)[i as int]);
            return false;
        }
        i = i + 1;
    }
    assert(lower(a@) =~= lower(b@));
    true
}

fn position_ignore_case(names: &Vec<String>, printer: &str) -> (r: Option<usize>)
    ensures
        match r {
            Some(i) => first_match(strings_view(names@), printer@) == Some(i as int),
            None => first_match(strings_view(names@), printer@) is None,
        },
{
    let ghost m = strings_view(names@);
    let n = names.len();
    let mut i: usize = 0;
    while i < n
        invariant
            n == names@.len(),
            m == strings_view(names@),
            i <= n,
            forall|j: int| 0 <= j < i ==> lower(#[trigger] m[j]) != lower(printer@),
        decreases n - i,
    {
        if eq_ignore_ascii_case(names[i].as_str(), printer) {
            assert(is_first_match(m, printer@, i as int));
            proof {
                let k = choose|k: int| is_first_match(m, printer@, k);
                if k < i {
                    assert(lower(m[k]) != lower(printer@));
                }
                if k > i {
                    assert(lower(m[i as int]) != lower(printer@));
                }
            }
            return Some(i);
        }
        i = i + 1;
    }
    assert(!exists|k: int| is_first_match(m, printer@, k));
    None
}

/// Decide what becomes of `class` when `printer` leaves it, from the member
/// names (absent where the scheduler reported none) and member URIs that
/// the scheduler reports. The printer is found by name up to ASCII case;
/// the URI at its position leaves, and where it was the only member the
/// class goes.
pub fn class_removal(
    names: Option<Vec<String>>,
    uris: Vec<String>,
    printer: &str,
    class: &str,
) -> (r: Result<ClassChange, String>)
    ensures
        match r {
            Ok(c) => removal_result(
                match names {
                    Some(n) => Some(strings_view(n@)),
                    None => None,
                },
                strings_view(uris@),
                printer@,
                class@,
            ) == Ok::<ClassChangeView, Seq<char>>(c@),
            Err(e) => removal_result(
                match names {
                    Some(n) => Some(strings_view(n@)),
                    None => None,
                },
                strings_view(uris@),
                printer@,
                class@,
            ) == Err::<ClassChangeView, Seq<char>>(e@),
        },
{
    let names = match names {
        Some(n) => n,
        None => {
            return Err(String::from_str("lpadmin-rs: No member names were seen."));
        },
    };
    let index = match position_ignore_case(&names, printer) {
        Some(i) => i,
        None => {
            return Err(
                String::from_str("lpadmin-rs: Printer ").concat(printer).concat(
                    " is not a member of class ",
                ).concat(class).concat("."),
            );
        },
    };
    if names.len() == 1 {
        return Ok(ClassChange::DeleteClass);
    }
    let ghost u = strings_view(uris@);
    let mut kept: Vec<String> = Vec::new();
    let n = uris.len();
    let mut k: usize = 0;
    while k < n
        invariant
            n == uris@.len(),
            u == strings_view(uris@),
            k <= n,
            strings_view(kept@) == if k <= index {
                u.take(k as int)
            } else {
                u.take(index as int) + u.subrange(index + 1, k as int)
            },
        decreases n - k,
    {
        let ghost before = strings_view(kept@);
        if k != index {
            kept.push(uris[k].clone());
            assert(strings_view(kept@) =~= before.push(u[k as int]));
        }
        proof {
            if k < index {
                assert(strings_view(kept@) =~= u.take(k + 1));
            } else if k == index {
                assert(strings_view(kept@) =~= u.take(index as int));
                assert(u.subrange(index + 1, k + 1) =~= Seq::<Seq<char>>::empty());
                assert(strings_view(kept@) =~= u.take(index as int) + u.subrange(
                    index + 1,
                    k + 1,
                ));
            } else {
                assert(strings_view(kept@) =~= u.take(index as int) + u.subrange(
                    index + 1,
                    k + 1,
                ));
            }
        }
        k = k + 1;
    }
    proof {
        if index < n {
            assert(u.subrange(index + 1, n as int) =~= u.skip(index + 1));
        } else {
            assert(u.take(n as int) =~= u);
        }
    }
    Ok(ClassChange::SetMembers(kept))
}

/// The GET-PRINTER-ATTRIBUTES request for a destination's `printer-type`.
pub fn printer_type_request(printer: &str) -> (r: AdminRequest)
    ensures
        r@ == request_view(
            IppOp::GetPrinterAttributes,
            true,
            seq![
                target_attr(printer_uri_view(printer@)),
                attr_view(
                    AttrGroup::Operation,
                    "requested-attributes"@,
                    AttrValueView::Keyword("printer-type"@),
                ),
            ],
            "/"@,
            "GET-PRINTER-ATTRIBUTES"@,
        ),
{
    let mut attrs: Vec<IppAttr> = Vec::new();
    push_attr(&mut attrs, AttrGroup::Operation, "printer-uri", AttrValue::Uri(printer_uri(printer)));
    push_attr(
        &mut attrs,
        AttrGroup::Operation,
        "requested-attributes",
        AttrValue::Keyword(String::from_str("printer-type")),
    );
    let r = AdminRequest {
        operation: IppOp::GetPrinterAttributes,
        standard_attrs: true,
        attrs,
        resource: String::from_str("/"),
        label: String::from_str("GET-PRINTER-ATTRIBUTES"),
    };
    assert(r@.attrs =~= seq![
        target_attr(printer_uri_view(printer@)),
        attr_view(AttrGroup::Operation, "requested-attributes"@, AttrValueView::Keyword("printer-type"@)),
    ]);
    r
}

/// Whether the reported `printer-type` marks a class.
pub fn is_class(printer_type: Option<i32>) -> (r: bool)
    ensures
        r == is_class_type(printer_type),
{
    match printer_type {
        Some(v) => (v as u32) % 2 == 1,
        None => false,
    }
}

/// The request of `-R`: remove the default of `option` on the destination,
/// which is addressed as a class where the reported `printer-type` marks
/// one, else as a printer.
pub fn delete_option_request(printer: &str, printer_type: Option<i32>, option: &str) -> (r:
    AdminRequest)
    ensures
        r@ == admin_view(
            if is_class_type(printer_type) {
                IppOp::CupsAddModifyClass
            } else {
                IppOp::CupsAddModifyPrinter
            },
            if is_class_type(printer_type) {
                class_uri_view(printer@)
            } else {
                printer_uri_view(printer@)
            },
            seq![attr_view(AttrGroup::Printer, option@, AttrValueView::DeleteAttr)],
            "CUPS-ADD-MODIFY"@,
        ),
{
    let class = is_class(printer_type);
    let uri = if class {
        class_uri(printer)
    } else {
        printer_uri(printer)
    };
    let op = if class {
        IppOp::CupsAddModifyClass
    } else {
        IppOp::CupsAddModifyPrinter
    };
    let mut r = admin_request(op, uri, "CUPS-ADD-MODIFY");
    let ghost a0 = attrs_view(r.attrs@);
    push_attr(&mut r.attrs, AttrGroup::Printer, option, AttrValue::DeleteAttr);
    assert(r@.attrs =~= a0 + seq![attr_view(AttrGroup::Printer, option@, AttrValueView::DeleteAttr)]);
    r
}

} // verus!
