//! User-level access control (`-u allow:...` / `-u deny:...`): the parser
//! of the command-line form and the rendering that goes to the scheduler.
use vstd::prelude::*;
use crate::text::{
    has_prefix, is_ws, lemma_trim_fixed, str_eq, strip_prefix, trim, trim_str,
};

verus! {

/// A user or group principal for access control
#[derive(Debug, Clone, PartialEq, Eq)]
pub enum Principal {
    User(String),
    Group(String),
}

/// User-level access control for a printer
#[derive(Debug, Clone, PartialEq, Eq)]
pub enum AccessControl {
    AllowAll,
    DenyNone,
    Allow(Vec<Principal>),
    Deny(Vec<Principal>),
}

/// The value of a `Principal`.
pub enum PrincipalView {
    User(Seq<char>),
    Group(Seq<char>),
}

/// The value of an `AccessControl`.
pub enum AccessControlView {
    AllowAll,
    DenyNone,
    Allow(Seq<PrincipalView>),
    Deny(Seq<PrincipalView>),
}

impl View for Principal {
    type V = PrincipalView;

    open spec fn view(&self) -> PrincipalView {
        match self {
            Principal::User(u) => PrincipalView::User(u@),
            Principal::Group(g) => PrincipalView::Group(g@),
        }
    }
}

pub open spec fn principals_view(v: Seq<Principal>) -> Seq<PrincipalView> {
    v.map_values(|p: Principal| p@)
}

impl View for AccessControl {
    type V = AccessControlView;

    open spec fn view(&self) -> AccessControlView {
        match self {
            AccessControl::AllowAll => AccessControlView::AllowAll,
            AccessControl::DenyNone => AccessControlView::DenyNone,
            AccessControl::Allow(l) => AccessControlView::Allow(principals_view(l@)),
            AccessControl::Deny(l) => AccessControlView::Deny(principals_view(l@)),
        }
    }
}

pub open spec fn access_controls_view(v: Seq<AccessControl>) -> Seq<AccessControlView> {
    v.map_values(|a: AccessControl| a@)
}

/// The pieces of `s` between the occurrences of `sep`, as `str::split`
/// gives them: one more piece than there are separators.
pub open spec fn split_on(s: Seq<char>, sep: char) -> Seq<Seq<char>>
    decreases s.len(),
{
    if s.len() == 0 {
        seq![Seq::<char>::empty()]
    } else {
        let prev = split_on(s.drop_last(), sep);
        if s.last() == sep {
            prev.push(Seq::<char>::empty())
        } else {
            prev.update(prev.len() - 1, prev.last().push(s.last()))
        }
    }
}

/// The principal that one (non-blank) piece of a list names: `@name` is a
/// group, anything else a user, once white space is trimmed away.
pub open spec fn principal_of(piece: Seq<char>) -> PrincipalView {
    let t = trim(piece);
    if t.len() > 0 && t[0] == '@' {
        PrincipalView::Group(t.skip(1))
    } else {
        PrincipalView::User(t)
    }
}

/// The result of parsing a comma-separated list of principals.
pub open spec fn principals_result(s: Seq<char>) -> Result<Seq<PrincipalView>, Seq<char>> {
    let pieces = split_on(s, ',');
    if exists|i: int| 0 <= i < pieces.len() && trim(#[trigger] pieces[i]).len() == 0 {
        Err("empty principal"@)
    } else {
        Ok(pieces.map_values(|p: Seq<char>| principal_of(p)))
    }
}

/// The result of parsing `allow:...` or `deny:...`.
pub open spec fn access_control_result(s: Seq<char>) -> Result<AccessControlView, Seq<char>> {
    if has_prefix(s, "allow:"@) {
        let rest = s.skip("allow:"@.len() as int);
        if rest == "all"@ {
            Ok(AccessControlView::AllowAll)
        } else {
            match principals_result(rest) {
                Ok(l) => Ok(AccessControlView::Allow(l)),
                Err(e) => Err(e),
            }
        }
    } else if has_prefix(s, "deny:"@) {
        let rest = s.skip("deny:"@.len() as int);
        if rest == "none"@ {
            Ok(AccessControlView::DenyNone)
        } else {
            match principals_result(rest) {
                Ok(l) => Ok(AccessControlView::Deny(l)),
                Err(e) => Err(e),
            }
        }
    } else {
        Err("expected allow:... or deny:..., got: "@ + s)
    }
}

/// How a principal is written in a list: a group with a leading `@`.
pub open spec fn render_principal(p: PrincipalView) -> Seq<char> {
    match p {
        PrincipalView::User(u) => u,
        PrincipalView::Group(g) => seq!['@'] + g,
    }
}

/// The principals written as a comma-separated list.
pub open spec fn join_view(l: Seq<PrincipalView>) -> Seq<char>
    decreases l.len(),
{
    if l.len() == 0 {
        Seq::<char>::empty()
    } else if l.len() == 1 {
        render_principal(l[0])
    } else {
        join_view(l.drop_last()) + seq![','] + render_principal(l.last())
    }
}

/// A principal that its written form names again: no comma in it, no
/// white space at either end of the written form, and a user name that is
/// not empty and does not begin with `@`.
pub open spec fn is_listable(p: PrincipalView) -> bool {
    match p {
        PrincipalView::User(u) => {
            &&& u.len() > 0
            &&& !u.contains(',')
            &&& u[0] != '@'
            &&& !is_ws(u[0])
            &&& !is_ws(u.last())
        },
        PrincipalView::Group(g) => {
            &&& !g.contains(',')
            &&& g.len() > 0 ==> !is_ws(g.last())
        },
    }
}

pub proof fn lemma_split_nonempty(s: Seq<char>, sep: char)
    ensures
        split_on(s, sep).len() >= 1,
    decreases s.len(),
{
    if s.len() > 0 {
        lemma_split_nonempty(s.drop_last(), sep);
    }
}

/// Text without the separator is one piece.
pub proof fn lemma_split_single(s: Seq<char>, sep: char)
    requires
        !s.contains(sep),
    ensures
        split_on(s, sep) == seq![s],
    decreases s.len(),
{
    if s.len() > 0 {
        let t = s.drop_last();
        assert(!t.contains(sep)) by {
            if t.contains(sep) {
                let k = choose|k: int| 0 <= k < t.len() && t[k] == sep;
                assert(s[k] == sep);
            }
        }
        assert(s[s.len() - 1] != sep);
        lemma_split_single(t, sep);
        assert(t.push(s.last()) =~= s);
        assert(split_on(s, sep) =~= seq![s]);
    } else {
        assert(s =~= Seq::<char>::empty());
    }
}

/// Splitting at a separator splits the two sides apart.
pub proof fn lemma_split_concat(a: Seq<char>, b: Seq<char>, sep: char)
    ensures
        split_on(a + seq![sep] + b, sep) == split_on(a, sep) + split_on(b, sep),
    decreases b.len(),
{
    let s = a + seq![sep] + b;
    lemma_split_nonempty(a, sep);
    if b.len() == 0 {
        assert(s.drop_last() =~= a);
        assert(split_on(b, sep) =~= seq![Seq::<char>::empty()]);
        assert(split_on(s, sep) =~= split_on(a, sep) + split_on(b, sep));
    } else {
        let b1 = b.drop_last();
        lemma_split_concat(a, b1, sep);
        lemma_split_nonempty(b1, sep);
        assert(s.drop_last() =~= a + seq![sep] + b1);
        assert(s.last() == b.last());
        let pa = split_on(a, sep);
        let pb1 = split_on(b1, sep);
        if b.last() == sep {
            assert(split_on(s, sep) =~= (pa + pb1).push(Seq::<char>::empty()));
            assert(split_on(s, sep) =~= pa + split_on(b, sep));
        } else {
            let prev = pa + pb1;
            assert(split_on(s, sep) == prev.update(prev.len() - 1, prev.last().push(b.last())));
            assert(prev.last() == pb1.last());
            assert(split_on(b, sep) == pb1.update(pb1.len() - 1, pb1.last().push(b.last())));
            assert(split_on(s, sep) =~= pa + split_on(b, sep));
        }
    }
}

/// Splitting a joined list at its commas gives back the written pieces.
pub proof fn lemma_split_join(l: Seq<PrincipalView>)
    requires
        l.len() > 0,
        forall|i: int| 0 <= i < l.len() ==> is_listable(#[trigger] l[i]),
    ensures
        split_on(join_view(l), ',') == l.map_values(|p: PrincipalView| render_principal(p)),
    decreases l.len(),
{
    lemma_render_no_comma(l.last());
    if l.len() == 1 {
        lemma_split_single(render_principal(l[0]), ',');
        assert(l.map_values(|p: PrincipalView| render_principal(p)) =~= seq![render_principal(l[0])]);
    } else {
        let l1 = l.drop_last();
        assert forall|i: int| 0 <= i < l1.len() implies is_listable(#[trigger] l1[i]) by {
            assert(l1[i] == l[i]);
        }
        lemma_split_join(l1);
        lemma_split_concat(join_view(l1), render_principal(l.last()), ',');
        lemma_split_single(render_principal(l.last()), ',');
        assert(l.map_values(|p: PrincipalView| render_principal(p)) =~= l1.map_values(
            |p: PrincipalView| render_principal(p),
        ) + seq![render_principal(l.last())]);
    }
}

pub proof fn lemma_render_no_comma(p: PrincipalView)
    requires
        is_listable(p),
    ensures
        !render_principal(p).contains(','),
{
    if let PrincipalView::Group(g) = p {
        let r = seq!['@'] + g;
        if r.contains(',') {
            let k = choose|k: int| 0 <= k < r.len() && r[k] == ',';
            assert(k > 0);
            assert(g[k - 1] == ',');
        }
    }
}

/// A listable principal, written out and read back, is itself.
pub proof fn lemma_principal_round_trip(p: PrincipalView)
    requires
        is_listable(p),
    ensures
        principal_of(render_principal(p)) == p,
        trim(render_principal(p)).len() > 0,
{
    let r = render_principal(p);
    match p {
        PrincipalView::User(u) => {
            lemma_trim_fixed(u);
        },
        PrincipalView::Group(g) => {
            assert(r[0] == '@');
            if g.len() > 0 {
                assert(r.last() == g.last());
            }
            lemma_trim_fixed(r);
            assert(r.skip(1) =~= g);
        },
    }
}

/// What `join_principals` writes, `parse_principals` reads back: for a
/// non-empty list of listable principals, parsing the comma-separated list
/// gives the same principals in the same order.
pub proof fn lemma_principals_round_trip(l: Seq<PrincipalView>)
    requires
        l.len() > 0,
        forall|i: int| 0 <= i < l.len() ==> is_listable(#[trigger] l[i]),
    ensures
        principals_result(join_view(l)) == Ok::<Seq<PrincipalView>, Seq<char>>(l),
{
    lemma_split_join(l);
    let pieces = split_on(join_view(l), ',');
    assert forall|i: int| 0 <= i < pieces.len() implies trim(#[trigger] pieces[i]).len() > 0
        && principal_of(pieces[i]) == l[i] by {
        lemma_principal_round_trip(l[i]);
    }
    assert(pieces.map_values(|p: Seq<char>| principal_of(p)) =~= l);
}

/// An access-control rule written as the scheduler's value and read back
/// through `-u`: `allow:` followed by the written list gives back the
/// allow list, and `deny:` followed by it the deny list, for every
/// non-empty list of listable principals, except where the written list is
/// the keyword itself (`all`, `none`).
pub proof fn lemma_access_control_round_trip(l: Seq<PrincipalView>)
    requires
        l.len() > 0,
        forall|i: int| 0 <= i < l.len() ==> is_listable(#[trigger] l[i]),
    ensures
        join_view(l) != "all"@ ==> access_control_result("allow:"@ + join_view(l)) == Ok::<
            AccessControlView,
            Seq<char>,
        >(AccessControlView::Allow(l)),
        join_view(l) != "none"@ ==> access_control_result("deny:"@ + join_view(l)) == Ok::<
            AccessControlView,
            Seq<char>,
        >(AccessControlView::Deny(l)),
{
    reveal_strlit("allow:");
    reveal_strlit("deny:");
    lemma_principals_round_trip(l);
    let j = join_view(l);
    let a = "allow:"@ + j;
    let d = "deny:"@ + j;
    assert(a.take(6) =~= "allow:"@);
    assert(a.skip(6) =~= j);
    assert(d.take(5) =~= "deny:"@);
    assert(d.skip(5) =~= j);
    assert(!has_prefix(d, "allow:"@)) by {
        if d.len() >= 6 {
            assert(d.take(6)[0] != "allow:"@[0]);
        }
    }
}

/// Pieces joined with a separator between each two.
pub open spec fn join_pieces(pieces: Seq<Seq<char>>, sep: char) -> Seq<char>
    decreases pieces.len(),
{
    if pieces.len() == 0 {
        Seq::<char>::empty()
    } else if pieces.len() == 1 {
        pieces[0]
    } else {
        join_pieces(pieces.drop_last(), sep) + seq![sep] + pieces.last()
    }
}

/// Joining the pieces of a text at the separator gives the text back.
pub proof fn lemma_join_split(s: Seq<char>, sep: char)
    ensures
        join_pieces(split_on(s, sep), sep) == s,
    decreases s.len(),
{
    if s.len() == 0 {
        assert(split_on(s, sep) =~= seq![Seq::<char>::empty()]);
        assert(s =~= Seq::<char>::empty());
    } else {
        let t = s.drop_last();
        let c = s.last();
        lemma_join_split(t, sep);
        lemma_split_nonempty(t, sep);
        let prev = split_on(t, sep);
        if c == sep {
            let now = prev.push(Seq::<char>::empty());
            assert(now.drop_last() =~= prev);
            assert(join_pieces(now, sep) =~= t + seq![sep] + Seq::<char>::empty());
            assert(t.push(c) =~= s);
            assert(t + seq![sep] + Seq::<char>::empty() =~= s);
        } else {
            let now = prev.update(prev.len() - 1, prev.last().push(c));
            if prev.len() == 1 {
                assert(join_pieces(now, sep) == prev[0].push(c));
                assert(prev[0].push(c) =~= s);
            } else {
                assert(now.drop_last() =~= prev.drop_last());
                let x = join_pieces(prev.drop_last(), sep);
                assert(join_pieces(now, sep) == x + seq![sep] + prev.last().push(c));
                assert(x + seq![sep] + prev.last().push(c) =~= (x + seq![sep] + prev.last()).push(
                    c,
                ));
                assert(t.push(c) =~= s);
            }
        }
    }
}

/// Writing principals is joining what each is written as.
pub proof fn lemma_join_view_pieces(l: Seq<PrincipalView>)
    ensures
        join_view(l) == join_pieces(l.map_values(|p: PrincipalView| render_principal(p)), ','),
    decreases l.len(),
{
    let m = l.map_values(|p: PrincipalView| render_principal(p));
    if l.len() > 1 {
        lemma_join_view_pieces(l.drop_last());
        assert(m.drop_last() =~= l.drop_last().map_values(|p: PrincipalView| render_principal(p)));
    }
}

/// A piece without white space at either end is written back as itself
/// once it is read as a principal.
pub proof fn lemma_piece_round_trip(piece: Seq<char>)
    requires
        piece.len() > 0,
        trim(piece) == piece,
    ensures
        render_principal(principal_of(piece)) == piece,
{
    if piece[0] == '@' {
        assert(seq!['@'] + piece.skip(1) =~= piece);
    }
}

/// What `parse_principals` reads from a list whose pieces are all
/// non-empty and without white space at either end, `join_principals`
/// writes back as that same text.
pub proof fn lemma_parse_then_join(s: Seq<char>, l: Seq<PrincipalView>)
    requires
        forall|i: int|
            0 <= i < split_on(s, ',').len() ==> (#[trigger] split_on(s, ',')[i]).len() > 0 && trim(
                split_on(s, ',')[i],
            ) == split_on(s, ',')[i],
        principals_result(s) == Ok::<Seq<PrincipalView>, Seq<char>>(l),
    ensures
        join_view(l) == s,
{
    let pieces = split_on(s, ',');
    assert(l == pieces.map_values(|p: Seq<char>| principal_of(p)));
    lemma_join_view_pieces(l);
    assert forall|i: int| 0 <= i < pieces.len() implies render_principal(
        principal_of(#[trigger] pieces[i]),
    ) == pieces[i] by {
        lemma_piece_round_trip(pieces[i]);
    }
    assert(l.map_values(|p: PrincipalView| render_principal(p)) =~= pieces);
    lemma_join_split(s, ',');
}

/// The principal named by one piece of a list, or `None` for a blank piece.
fn principal_from_piece(piece: &str) -> (r: Option<Principal>)
    ensures
        r is None <==> trim(piece@).len() == 0,
        r matches Some(p) ==> p@ == principal_of(piece@),
{
    let t = trim_str(piece);
    let n = t.unicode_len();
    if n == 0 {
        None
    } else if t.get_char(0) == '@' {
        Some(Principal::Group(String::from_str(t.substring_char(1, n))))
    } else {
        Some(Principal::User(String::from_str(t)))
    }
}

/// Parse a comma-separated list of principals (`user` or `@group`).
pub fn parse_principals(s: &str) -> (r: Result<Vec<Principal>, String>)
    ensures
        match r {
            Ok(v) => principals_result(s@) == Ok::<Seq<PrincipalView>, Seq<char>>(
                principals_view(v@),
            ),
            Err(e) => principals_result(s@) == Err::<Seq<PrincipalView>, Seq<char>>(e@),
        },
{
    let len = s.unicode_len();
    let mut out: Vec<Principal> = Vec::new();
    let mut failed = false;
    let mut start: usize = 0;
    let mut i: usize = 0;
    let ghost mut done: Seq<Seq<char>> = Seq::empty();
    assert(s@.take(0) =~= Seq::<char>::empty());
    assert(s@.subrange(0, 0) =~= Seq::<char>::empty());
    while i < len
        invariant
            len == s@.len(),
            start <= i <= len,
            split_on(s@.take(i as int), ',') == done.push(s@.subrange(start as int, i as int)),
            failed ==> exists|k: int| 0 <= k < done.len() && trim(#[trigger] done[k]).len() == 0,
            !failed ==> forall|k: int| 0 <= k < done.len() ==> trim(#[trigger] done[k]).len() > 0,
            !failed ==> out@.len() == done.len(),
            !failed ==> forall|k: int|
                0 <= k < done.len() ==> (#[trigger] out@[k])@ == principal_of(done[k]),
        decreases len - i,
    {
        let c = s.get_char(i);
        let ghost cur = s@.subrange(start as int, i as int);
        assert(s@.take(i + 1).drop_last() =~= s@.take(i as int));
        assert(s@.take(i + 1).last() == c);
        proof {
            lemma_split_nonempty(s@.take(i as int), ',');
        }
        if c == ',' {
            let piece = s.substring_char(start, i);
            match principal_from_piece(piece) {
                Some(p) => {
                    if !failed {
                        out.push(p);
                    }
                },
                None => {
                    failed = true;
                },
            }
            proof {
                let old_done = done;
                done = done.push(cur);
                assert(done[old_done.len() as int] == cur);
                assert(s@.subrange(i + 1, i + 1) =~= Seq::<char>::empty());
                assert(split_on(s@.take(i + 1), ',') =~= done.push(s@.subrange(i + 1, i + 1)));
                if failed {
                    if trim(cur).len() != 0 {
                        let k = choose|k: int|
                            0 <= k < old_done.len() && trim(#[trigger] old_done[k]).len() == 0;
                        assert(done[k] == old_done[k]);
                    }
                }
            }
            start = i + 1;
        } else {
            proof {
                assert(cur.push(c) =~= s@.subrange(start as int, i + 1));
                assert(split_on(s@.take(i + 1), ',') =~= done.push(
                    s@.subrange(start as int, i + 1),
                ));
            }
        }
        i = i + 1;
    }
    let piece = s.substring_char(start, len);
    let last = principal_from_piece(piece);
    assert(s@.take(len as int) =~= s@);
    let ghost pieces = done.push(s@.subrange(start as int, len as int));
    assert(split_on(s@, ',') == pieces);
    match last {
        Some(p) => {
            if failed {
                proof {
                    let k = choose|k: int| 0 <= k < done.len() && trim(#[trigger] done[k]).len() == 0;
                    assert(pieces[k] == done[k]);
                }
                Err(String::from_str("empty principal"))
            } else {
                out.push(p);
                proof {
                    assert forall|k: int| 0 <= k < pieces.len() implies trim(#[trigger] pieces[k]).len()
                        > 0 by {
                        if k < done.len() {
                            assert(pieces[k] == done[k]);
                        }
                    }
                    assert(principals_view(out@) =~= pieces.map_values(
                        |p: Seq<char>| principal_of(p),
                    )) by {
                        assert forall|k: int| 0 <= k < pieces.len() implies principals_view(out@)[k]
                            == principal_of(pieces[k]) by {
                            if k < done.len() {
                                assert(pieces[k] == done[k]);
                                assert((out@[k])@ == principal_of(done[k]));
                            }
                        }
                    }
                }
                Ok(out)
            }
        },
        None => {
            assert(trim(pieces[pieces.len() - 1]).len() == 0);
            Err(String::from_str("empty principal"))
        },
    }
}

/// Parse `-u allow:all`, `-u allow:user,@group,...`, `-u deny:none` or
/// `-u deny:user,@group,...`.
pub fn parse_access_control(s: &str) -> (r: Result<AccessControl, String>)
    ensures
        match r {
            Ok(a) => access_control_result(s@) == Ok::<AccessControlView, Seq<char>>(a@),
            Err(e) => access_control_result(s@) == Err::<AccessControlView, Seq<char>>(e@),
        },
{
    if let Some(rest) = strip_prefix(s, "allow:") {
        if str_eq(rest, "all") {
            Ok(AccessControl::AllowAll)
        } else {
            match parse_principals(rest) {
                Ok(l) => Ok(AccessControl::Allow(l)),
                Err(e) => Err(e),
            }
        }
    } else if let Some(rest) = strip_prefix(s, "deny:") {
        if str_eq(rest, "none") {
            Ok(AccessControl::DenyNone)
        } else {
            match parse_principals(rest) {
                Ok(l) => Ok(AccessControl::Deny(l)),
                Err(e) => Err(e),
            }
        }
    } else {
        Err(String::from_str("expected allow:... or deny:..., got: ").concat(s))
    }
}

/// Write principals as the comma-separated list that the scheduler takes:
/// users by name, groups as `@name`.
pub fn join_principals(list: &[Principal]) -> (r: String)
    ensures
        r@ == join_view(principals_view(list@)),
{
    let mut res = String::new();
    let n = list.len();
    let ghost l = principals_view(list@);
    proof {
        reveal_strlit("@");
        reveal_strlit(",");
    }
    let mut i: usize = 0;
    while i < n
        invariant
            n == list@.len(),
            l == principals_view(list@),
            i <= n,
            res@ == join_view(l.take(i as int)),
        decreases n - i,
    {
        let ghost before = res@;
        proof {
            reveal_strlit("@");
            reveal_strlit(",");
        }
        if i > 0 {
            res.append(",");
        }
        let ghost mid = res@;
        match &list[i] {
            Principal::User(u) => {
                res.append(u.as_str());
                assert(res@ == mid + render_principal(list@[i as int]@));
            },
            Principal::Group(g) => {
                res.append("@");
                res.append(g.as_str());
                assert(res@ =~= mid + render_principal(list@[i as int]@));
            },
        }
        proof {
            let t = l.take(i + 1);
            assert(t.drop_last() =~= l.take(i as int));
            assert(t.last() == list@[i as int]@);
            if i == 0 {
                assert(res@ =~= render_principal(t[0]));
            } else {
                assert(res@ =~= before + seq![','] + render_principal(t.last()));
            }
        }
        i = i + 1;
    }
    assert(l.take(n as int) =~= l);
    res
}

} // verus!
