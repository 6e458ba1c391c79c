use vstd::prelude::*;
use vstd::string::StringExecFns;
use vstd::utf8::encode_utf8;
use crate::auth::permission::{PermissionLevel, ProjectPermission, RepositoryPermission};
use crate::client::{percent_encode, percent_encoded};
use crate::group::Group;
use crate::project::Project;
use crate::repository::Repository;
use crate::user::User;

verus! {

/// A grant pairing a group with a permission level on one scope.
#[derive(Debug, PartialEq, Eq, Hash)]
pub struct GroupAccess<P> {
    pub group: Group,
    pub permission: P,
}

impl<P> GroupAccess<P> {
    pub fn new(group: Group, permission: P) -> (r: GroupAccess<P>)
        ensures
            r.group == group,
            r.permission == permission,
    {
        GroupAccess { group, permission }
    }

    pub fn group(&self) -> (r: &Group)
        ensures
            *r == self.group,
    {
        &self.group
    }

    pub fn permission(&self) -> (r: &P)
        ensures
            *r == self.permission,
    {
        &self.permission
    }
}

/// A grant pairing a user with a permission level on one scope.
#[derive(Debug, PartialEq, Eq, Hash)]
pub struct UserAccess<P> {
    pub user: User,
    pub permission: P,
}

impl<P> UserAccess<P> {
    pub fn new(user: User, permission: P) -> (r: UserAccess<P>)
        ensures
            r.user == user,
            r.permission == permission,
    {
        UserAccess { user, permission }
    }

    pub fn user(&self) -> (r: &User)
        ensures
            *r == self.user,
    {
        &self.user
    }

    pub fn permission(&self) -> (r: &P)
        ensures
            *r == self.permission,
    {
        &self.permission
    }
}

/// The (name, level) views of a sequence of (name, level) pairs.
pub open spec fn pair_views<L>(s: Seq<(String, L)>) -> Seq<(Seq<char>, L)> {
    s.map_values(|g: (String, L)| (g.0@, g.1))
}

/// The pairs of `cur` with no identical pair in `des`: the grants a
/// convergence pass removes, in current order.
pub open spec fn plan_removals<L>(
    cur: Seq<(Seq<char>, L)>,
    des: Seq<(Seq<char>, L)>,
) -> Seq<(Seq<char>, L)> {
    cur.filter(|g: (Seq<char>, L)| !des.contains(g))
}

/// The pairs of `des` with no identical pair in `cur`: the grants a
/// convergence pass adds, in desired order.
pub open spec fn plan_additions<L>(
    cur: Seq<(Seq<char>, L)>,
    des: Seq<(Seq<char>, L)>,
) -> Seq<(Seq<char>, L)> {
    des.filter(|g: (Seq<char>, L)| !cur.contains(g))
}

proof fn lemma_plan_removals_push<L>(
    cur: Seq<(Seq<char>, L)>,
    des: Seq<(Seq<char>, L)>,
    g: (Seq<char>, L),
)
    ensures
        plan_removals(cur.push(g), des) == (if !des.contains(g) {
            plan_removals(cur, des).push(g)
        } else {
            plan_removals(cur, des)
        }),
{
    reveal(Seq::filter);
    assert(cur.push(g).drop_last() =~= cur);
}

proof fn lemma_plan_additions_push<L>(
    cur: Seq<(Seq<char>, L)>,
    des: Seq<(Seq<char>, L)>,
    g: (Seq<char>, L),
)
    ensures
        plan_additions(cur, des.push(g)) == (if !cur.contains(g) {
            plan_additions(cur, des).push(g)
        } else {
            plan_additions(cur, des)
        }),
{
    reveal(Seq::filter);
    assert(des.push(g).drop_last() =~= des);
}

/// A grant set in the map model: each principal name holds exactly one
/// level, a later pair overriding an earlier one of the same name.
pub open spec fn grant_map<L>(s: Seq<(Seq<char>, L)>) -> Map<Seq<char>, L>
    decreases s.len(),
{
    if s.len() == 0 {
        Map::empty()
    } else {
        grant_map(s.drop_last()).insert(s.last().0, s.last().1)
    }
}

/// At most one grant per principal name: the invariant the server
/// enforces on a scope, and a converged grant set satisfies.
pub open spec fn unique_names<L>(s: Seq<(Seq<char>, L)>) -> bool {
    forall|i: int, j: int| 0 <= i < j < s.len() ==> (#[trigger] s[i]).0 != (#[trigger] s[j]).0
}

/// The names one convergence pass removes, in the map model: the
/// currently granted principals whose level is absent from, or differs
/// in, the desired state.
pub open spec fn removal_names<L>(cur: Map<Seq<char>, L>, des: Map<Seq<char>, L>) -> Set<
    Seq<char>,
> {
    cur.dom().filter(|n: Seq<char>| !(des.dom().contains(n) && des[n] == cur[n]))
}

/// The grants one convergence pass adds, in the map model: the desired
/// entries absent from, or differing in, the current state.
pub open spec fn addition_map<L>(cur: Map<Seq<char>, L>, des: Map<Seq<char>, L>) -> Map<
    Seq<char>,
    L,
> {
    Map::new(
        |n: Seq<char>| des.dom().contains(n) && !(cur.dom().contains(n) && cur[n] == des[n]),
        |n: Seq<char>| des[n],
    )
}

/// The server state after one convergence pass: each removal erases the
/// named principal's grant entirely, whatever level was matched, and
/// each addition then sets its target level.
pub open spec fn apply_ops<L>(
    state: Map<Seq<char>, L>,
    removals: Set<Seq<char>>,
    additions: Map<Seq<char>, L>,
) -> Map<Seq<char>, L> {
    state.remove_keys(removals).union_prefer_right(additions)
}

/// Law: one convergence pass reaches the desired state exactly.
/// Removing by name alone cannot strand a principal without permission,
/// because a changed level reappears among the additions, which run
/// strictly after the removals.
pub proof fn lemma_convergence_reaches_desired<L>(cur: Map<Seq<char>, L>, des: Map<Seq<char>, L>)
    ensures
        apply_ops(cur, removal_names(cur, des), addition_map(cur, des)) == des,
{
    let result = apply_ops(cur, removal_names(cur, des), addition_map(cur, des));
    assert(result =~= des);
}

/// Law: converging a state to itself plans nothing at all.
pub proof fn lemma_no_op_on_equal<L>(s: Map<Seq<char>, L>)
    ensures
        removal_names(s, s) == Set::<Seq<char>>::empty(),
        addition_map(s, s) == Map::<Seq<char>, L>::empty(),
{
    assert(removal_names(s, s) =~= Set::<Seq<char>>::empty());
    assert(addition_map(s, s) =~= Map::<Seq<char>, L>::empty());
}

/// Law: a second pass against the state the first pass reached plans
/// nothing — reconciliation is idempotent once the server converges.
pub proof fn lemma_reconcile_idempotent<L>(cur: Map<Seq<char>, L>, des: Map<Seq<char>, L>)
    ensures
        removal_names(apply_ops(cur, removal_names(cur, des), addition_map(cur, des)), des)
            == Set::<Seq<char>>::empty(),
        addition_map(apply_ops(cur, removal_names(cur, des), addition_map(cur, des)), des) == Map::<
            Seq<char>,
            L,
        >::empty(),
{
    lemma_convergence_reaches_desired(cur, des);
    lemma_no_op_on_equal(des);
}

proof fn lemma_plan_removals_all_present<L>(cur: Seq<(Seq<char>, L)>, des: Seq<(Seq<char>, L)>)
    requires
        forall|i: int| 0 <= i < cur.len() ==> des.contains(#[trigger] cur[i]),
    ensures
        plan_removals(cur, des) == Seq::<(Seq<char>, L)>::empty(),
    decreases cur.len(),
{
    reveal(Seq::filter);
    if cur.len() > 0 {
        assert(forall|i: int|
            0 <= i < cur.drop_last().len() ==> des.contains(#[trigger] cur.drop_last()[i]));
        lemma_plan_removals_all_present(cur.drop_last(), des);
        assert(des.contains(cur[cur.len() - 1]));
    } else {
        assert(cur =~= Seq::<(Seq<char>, L)>::empty());
    }
}

proof fn lemma_plan_additions_all_present<L>(cur: Seq<(Seq<char>, L)>, des: Seq<(Seq<char>, L)>)
    requires
        forall|i: int| 0 <= i < des.len() ==> cur.contains(#[trigger] des[i]),
    ensures
        plan_additions(cur, des) == Seq::<(Seq<char>, L)>::empty(),
    decreases des.len(),
{
    reveal(Seq::filter);
    if des.len() > 0 {
        assert(forall|i: int|
            0 <= i < des.drop_last().len() ==> cur.contains(#[trigger] des.drop_last()[i]));
        lemma_plan_additions_all_present(cur, des.drop_last());
        assert(cur.contains(des[des.len() - 1]));
    } else {
        assert(des =~= Seq::<(Seq<char>, L)>::empty());
    }
}

/// Law: a current state equal to the desired one — the same pairs, as
/// sets — plans no removal and no addition, so no write or delete is
/// issued at all.
pub proof fn lemma_no_op_on_equal_pairs<L>(cur: Seq<(Seq<char>, L)>, des: Seq<(Seq<char>, L)>)
    requires
        forall|g: (Seq<char>, L)| cur.contains(g) <==> des.contains(g),
    ensures
        plan_removals(cur, des) == Seq::<(Seq<char>, L)>::empty(),
        plan_additions(cur, des) == Seq::<(Seq<char>, L)>::empty(),
{
    assert(forall|i: int| 0 <= i < cur.len() ==> des.contains(#[trigger] cur[i]));
    assert(forall|i: int| 0 <= i < des.len() ==> cur.contains(#[trigger] des[i]));
    lemma_plan_removals_all_present(cur, des);
    lemma_plan_additions_all_present(cur, des);
}

proof fn lemma_grant_map_membership<L>(s: Seq<(Seq<char>, L)>)
    requires
        unique_names(s),
    ensures
        forall|g: (Seq<char>, L)| #[trigger]
            s.contains(g) ==> grant_map(s).dom().contains(g.0) && grant_map(s)[g.0] == g.1,
        forall|n: Seq<char>| #[trigger]
            grant_map(s).dom().contains(n) ==> s.contains((n, grant_map(s)[n])),
    decreases s.len(),
{
    if s.len() > 0 {
        let b = s.drop_last();
        let t = s.last();
        assert(unique_names(b));
        lemma_grant_map_membership(b);
        assert(grant_map(s) == grant_map(b).insert(t.0, t.1));
        assert forall|g: (Seq<char>, L)| #[trigger]
            s.contains(g) implies grant_map(s).dom().contains(g.0) && grant_map(s)[g.0]
            == g.1 by {
            let i = choose|i: int| 0 <= i < s.len() && s[i] == g;
            if i == s.len() - 1 {
                assert(g == t);
            } else {
                assert(b[i] == g);
                assert(b.contains(g));
                if g.0 == t.0 {
                    assert(s[i].0 == s[s.len() - 1].0);
                    assert(false);
                }
            }
        }
        assert forall|n: Seq<char>| #[trigger]
            grant_map(s).dom().contains(n) implies s.contains((n, grant_map(s)[n])) by {
            if n == t.0 {
                assert(grant_map(s)[n] == t.1);
                assert(s[s.len() - 1] == (n, grant_map(s)[n]));
            } else {
                assert(grant_map(b).dom().contains(n));
                assert(grant_map(s)[n] == grant_map(b)[n]);
                assert(b.contains((n, grant_map(b)[n])));
                let i = choose|i: int| 0 <= i < b.len() && b[i] == (n, grant_map(b)[n]);
                assert(s[i] == (n, grant_map(s)[n]));
            }
        }
    }
}

proof fn lemma_plan_removals_membership<L>(cur: Seq<(Seq<char>, L)>, des: Seq<(Seq<char>, L)>)
    ensures
        forall|g: (Seq<char>, L)| #[trigger]
            plan_removals(cur, des).contains(g) <==> cur.contains(g) && !des.contains(g),
    decreases cur.len(),
{
    reveal(Seq::filter);
    if cur.len() == 0 {
        assert(forall|g: (Seq<char>, L)| !plan_removals(cur, des).contains(g));
        assert(forall|g: (Seq<char>, L)| !cur.contains(g));
    } else {
        let b = cur.drop_last();
        let t = cur.last();
        lemma_plan_removals_membership(b, des);
        assert forall|g: (Seq<char>, L)| #[trigger]
            plan_removals(cur, des).contains(g) <==> cur.contains(g) && !des.contains(g) by {
            let pb = plan_removals(b, des);
            assert(cur.contains(g) <==> b.contains(g) || g == t) by {
                if cur.contains(g) {
                    let i = choose|i: int| 0 <= i < cur.len() && cur[i] == g;
                    if i < cur.len() - 1 {
                        assert(b[i] == g);
                    }
                }
                if b.contains(g) {
                    let i = choose|i: int| 0 <= i < b.len() && b[i] == g;
                    assert(cur[i] == g);
                }
                if g == t {
                    assert(cur[cur.len() - 1] == g);
                }
            }
            if !des.contains(t) {
                assert(plan_removals(cur, des) == pb.push(t));
                assert(pb.push(t).contains(g) <==> pb.contains(g) || g == t) by {
                    if pb.push(t).contains(g) {
                        let i = choose|i: int| 0 <= i < pb.push(t).len() && pb.push(t)[i] == g;
                        if i < pb.len() {
                            assert(pb[i] == g);
                        }
                    }
                    if pb.contains(g) {
                        let i = choose|i: int| 0 <= i < pb.len() && pb[i] == g;
                        assert(pb.push(t)[i] == g);
                    }
                    if g == t {
                        assert(pb.push(t)[pb.len() as int] == g);
                    }
                }
            } else {
                assert(plan_removals(cur, des) == pb);
            }
        }
    }
}

proof fn lemma_plan_additions_membership<L>(cur: Seq<(Seq<char>, L)>, des: Seq<(Seq<char>, L)>)
    ensures
        forall|g: (Seq<char>, L)| #[trigger]
            plan_additions(cur, des).contains(g) <==> des.contains(g) && !cur.contains(g),
    decreases des.len(),
{
    reveal(Seq::filter);
    if des.len() == 0 {
        assert(forall|g: (Seq<char>, L)| !plan_additions(cur, des).contains(g));
        assert(forall|g: (Seq<char>, L)| !des.contains(g));
    } else {
        let b = des.drop_last();
        let t = des.last();
        lemma_plan_additions_membership(cur, b);
        assert forall|g: (Seq<char>, L)| #[trigger]
            plan_additions(cur, des).contains(g) <==> des.contains(g) && !cur.contains(g) by {
            let pb = plan_additions(cur, b);
            assert(des.contains(g) <==> b.contains(g) || g == t) by {
                if des.contains(g) {
                    let i = choose|i: int| 0 <= i < des.len() && des[i] == g;
                    if i < des.len() - 1 {
                        assert(b[i] == g);
                    }
                }
                if b.contains(g) {
                    let i = choose|i: int| 0 <= i < b.len() && b[i] == g;
                    assert(des[i] == g);
                }
                if g == t {
                    assert(des[des.len() - 1] == g);
                }
            }
            if !cur.contains(t) {
                assert(plan_additions(cur, des) == pb.push(t));
                assert(pb.push(t).contains(g) <==> pb.contains(g) || g == t) by {
                    if pb.push(t).contains(g) {
                        let i = choose|i: int| 0 <= i < pb.push(t).len() && pb.push(t)[i] == g;
                        if i < pb.len() {
                            assert(pb[i] == g);
                        }
                    }
                    if pb.contains(g) {
                        let i = choose|i: int| 0 <= i < pb.len() && pb[i] == g;
                        assert(pb.push(t)[i] == g);
                    }
                    if g == t {
                        assert(pb.push(t)[pb.len() as int] == g);
                    }
                }
            } else {
                assert(plan_additions(cur, des) == pb);
            }
        }
    }
}

proof fn lemma_plan_additions_unique<L>(cur: Seq<(Seq<char>, L)>, des: Seq<(Seq<char>, L)>)
    requires
        unique_names(des),
    ensures
        unique_names(plan_additions(cur, des)),
    decreases des.len(),
{
    reveal(Seq::filter);
    if des.len() > 0 {
        let b = des.drop_last();
        let t = des.last();
        assert(unique_names(b));
        lemma_plan_additions_unique(cur, b);
        lemma_plan_additions_membership(cur, b);
        let pb = plan_additions(cur, b);
        if !cur.contains(t) {
            assert(plan_additions(cur, des) == pb.push(t));
            assert forall|i: int, j: int|
                0 <= i < j < pb.push(t).len() implies (#[trigger] pb.push(t)[i]).0 != (
            #[trigger] pb.push(t)[j]).0 by {
                if j < pb.len() {
                    assert(pb[i].0 != pb[j].0);
                } else {
                    assert(pb.push(t)[j] == t);
                    assert(pb[i] == pb.push(t)[i]);
                    assert(pb.contains(pb[i]));
                    assert(b.contains(pb[i]));
                    let k = choose|k: int| 0 <= k < b.len() && b[k] == pb[i];
                    assert(des[k] == b[k]);
                    assert(des[des.len() - 1] == t);
                    assert(des[k].0 != t.0);
                }
            }
        } else {
            assert(plan_additions(cur, des) == pb);
        }
    }
}

/// Law: once the listed state carries exactly the desired grants — one
/// per principal, in whatever order the server lists them — a further
/// pass plans nothing. With `lemma_convergence_reaches_desired` this is
/// the idempotence of reconciliation: the second call re-reads the
/// converged state and issues zero operations.
pub proof fn lemma_converged_state_plans_nothing<L>(
    cur: Seq<(Seq<char>, L)>,
    des: Seq<(Seq<char>, L)>,
)
    requires
        unique_names(cur),
        unique_names(des),
        grant_map(cur) == grant_map(des),
    ensures
        plan_removals(cur, des) == Seq::<(Seq<char>, L)>::empty(),
        plan_additions(cur, des) == Seq::<(Seq<char>, L)>::empty(),
{
    lemma_grant_map_membership(cur);
    lemma_grant_map_membership(des);
    assert forall|g: (Seq<char>, L)| cur.contains(g) <==> des.contains(g) by {
        if cur.contains(g) {
            assert(grant_map(des).dom().contains(g.0) && grant_map(des)[g.0] == g.1);
            assert(des.contains((g.0, grant_map(des)[g.0])));
        }
        if des.contains(g) {
            assert(grant_map(cur).dom().contains(g.0) && grant_map(cur)[g.0] == g.1);
            assert(cur.contains((g.0, grant_map(cur)[g.0])));
        }
    }
    lemma_no_op_on_equal_pairs(cur, des);
}

/// How the structural pair diff realizes the map model: when each state
/// holds one grant per principal, the removal pairs' names are exactly
/// `removal_names`, and the addition pairs form exactly `addition_map`.
/// Together with `lemma_convergence_reaches_desired` and
/// `lemma_reconcile_idempotent` this carries the convergence and
/// idempotence laws down to the computed plan.
pub proof fn lemma_plan_matches_model<L>(cur: Seq<(Seq<char>, L)>, des: Seq<(Seq<char>, L)>)
    requires
        unique_names(cur),
        unique_names(des),
    ensures
        plan_removals(cur, des).map_values(|g: (Seq<char>, L)| g.0).to_set() == removal_names(
            grant_map(cur),
            grant_map(des),
        ),
        grant_map(plan_additions(cur, des)) == addition_map(grant_map(cur), grant_map(des)),
{
    let cm = grant_map(cur);
    let dm = grant_map(des);
    lemma_grant_map_membership(cur);
    lemma_grant_map_membership(des);
    lemma_plan_removals_membership(cur, des);
    lemma_plan_additions_membership(cur, des);
    let removed = plan_removals(cur, des).map_values(|g: (Seq<char>, L)| g.0);
    assert forall|n: Seq<char>| #[trigger]
        removed.to_set().contains(n) implies removal_names(cm, dm).contains(n) by {
        let i = choose|i: int| 0 <= i < removed.len() && removed[i] == n;
        let g = plan_removals(cur, des)[i];
        assert(plan_removals(cur, des).contains(g));
        assert(cur.contains(g) && !des.contains(g));
        assert(cm.dom().contains(n) && cm[n] == g.1);
        if dm.dom().contains(n) && dm[n] == cm[n] {
            assert(des.contains((n, dm[n])));
            assert(false);
        }
    }
    assert forall|n: Seq<char>| #[trigger]
        removal_names(cm, dm).contains(n) implies removed.to_set().contains(n) by {
        let g = (n, cm[n]);
        assert(cur.contains(g));
        if des.contains(g) {
            assert(dm.dom().contains(n) && dm[n] == cm[n]);
            assert(false);
        }
        assert(plan_removals(cur, des).contains(g));
        let i = choose|i: int| 0 <= i < plan_removals(cur, des).len() && plan_removals(cur, des)[i]
            == g;
        assert(removed[i] == n);
        assert(removed.contains(n));
    }
    assert(removed.to_set() =~= removal_names(cm, dm));
    let pa = plan_additions(cur, des);
    lemma_plan_additions_unique(cur, des);
    lemma_grant_map_membership(pa);
    let am = addition_map(cm, dm);
    assert forall|n: Seq<char>| #[trigger]
        grant_map(pa).dom().contains(n) implies am.dom().contains(n) && am[n] == grant_map(
        pa,
    )[n] by {
        let g = (n, grant_map(pa)[n]);
        assert(pa.contains(g));
        assert(des.contains(g) && !cur.contains(g));
        assert(dm.dom().contains(n) && dm[n] == g.1);
        if cm.dom().contains(n) && cm[n] == dm[n] {
            assert(cur.contains((n, cm[n])));
            assert(false);
        }
    }
    assert forall|n: Seq<char>| #[trigger]
        am.dom().contains(n) implies grant_map(pa).dom().contains(n) by {
        let g = (n, dm[n]);
        assert(des.contains(g));
        if cur.contains(g) {
            assert(cm.dom().contains(n) && cm[n] == dm[n]);
            assert(false);
        }
        assert(pa.contains(g));
    }
    assert(grant_map(pa) =~= am);
}

/// The ephemeral outcome of diffing current against desired grants:
/// removals are keyed by principal name alone, additions carry the
/// target level too.
pub struct ConvergencePlan<L> {
    pub removals: Vec<String>,
    pub additions: Vec<(String, L)>,
}

fn contains_pair<L: PermissionLevel>(v: &Vec<(String, L)>, name: &String, level: &L) -> (r: bool)
    ensures
        r == pair_views(v@).contains((name@, *level)),
{
    let mut i: usize = 0;
    while i < v.len()
        invariant
            i <= v@.len(),
            forall|j: int| 0 <= j < i ==> pair_views(v@)[j] != (name@, *level),
        decreases v@.len() - i,
    {
        if v[i].0 == *name && v[i].1.same_level(level) {
            proof {
                assert(pair_views(v@)[i as int] == (name@, *level));
            }
            return true;
        }
        proof {
            assert(pair_views(v@)[i as int] == (v@[i as int].0@, v@[i as int].1));
        }
        i += 1;
    }
    false
}

/// Diffs the current grants against the desired ones, structurally over
/// whole (name, level) pairs: a pair present but not desired is removed,
/// a pair desired but not present is added, and a pair present in both
/// is left alone.
pub fn compute_plan<L: PermissionLevel>(
    current: &Vec<(String, L)>,
    desired: &Vec<(String, L)>,
) -> (p: ConvergencePlan<L>)
    ensures
        p.removals@.map_values(|n: String| n@) == plan_removals(
            pair_views(current@),
            pair_views(desired@),
        ).map_values(|g: (Seq<char>, L)| g.0),
        pair_views(p.additions@) == plan_additions(pair_views(current@), pair_views(desired@)),
{
    let ghost cv = pair_views(current@);
    let ghost dv = pair_views(desired@);
    let mut removals: Vec<String> = Vec::new();
    let mut i: usize = 0;
    while i < current.len()
        invariant
            i <= current@.len(),
            cv == pair_views(current@),
            dv == pair_views(desired@),
            cv.len() == current@.len(),
            removals@.map_values(|n: String| n@) == plan_removals(cv.take(i as int), dv).map_values(
                |g: (Seq<char>, L)| g.0,
            ),
        decreases current@.len() - i,
    {
        let ghost prefix = cv.take(i as int);
        let keep = !contains_pair(desired, &current[i].0, &current[i].1);
        proof {
            assert(cv[i as int] == (current@[i as int].0@, current@[i as int].1));
            assert(cv.take(i + 1).drop_last() =~= prefix);
            assert(cv.take(i + 1).last() == cv[i as int]);
        }
        proof {
            assert(cv.take(i + 1) =~= prefix.push(cv[i as int]));
            lemma_plan_removals_push(prefix, dv, cv[i as int]);
        }
        if keep {
            let ghost rold = removals@;
            removals.push(current[i].0.clone());
            proof {
                let planned = plan_removals(prefix, dv);
                assert(plan_removals(cv.take(i + 1), dv) == planned.push(cv[i as int]));
                assert(removals@ == rold.push(current@[i as int].0));
                assert(removals@.map_values(|n: String| n@) =~= rold.map_values(
                    |n: String| n@,
                ).push(current@[i as int].0@));
                assert(planned.push(cv[i as int]).map_values(|g: (Seq<char>, L)| g.0)
                    =~= planned.map_values(|g: (Seq<char>, L)| g.0).push(cv[i as int].0));
            }
        }
        i += 1;
    }
    proof {
        assert(cv.take(cv.len() as int) =~= cv);
    }
    let mut additions: Vec<(String, L)> = Vec::new();
    let mut j: usize = 0;
    while j < desired.len()
        invariant
            j <= desired@.len(),
            cv == pair_views(current@),
            dv == pair_views(desired@),
            dv.len() == desired@.len(),
            pair_views(additions@) == plan_additions(cv, dv.take(j as int)),
        decreases desired@.len() - j,
    {
        let ghost prefix = dv.take(j as int);
        let missing = !contains_pair(current, &desired[j].0, &desired[j].1);
        proof {
            assert(dv[j as int] == (desired@[j as int].0@, desired@[j as int].1));
            assert(dv.take(j + 1).drop_last() =~= prefix);
            assert(dv.take(j + 1).last() == dv[j as int]);
        }
        proof {
            assert(dv.take(j + 1) =~= prefix.push(dv[j as int]));
            lemma_plan_additions_push(cv, prefix, dv[j as int]);
        }
        if missing {
            let name = desired[j].0.clone();
            let level = desired[j].1;
            additions.push((name, level));
            proof {
                assert(pair_views(additions@) =~= plan_additions(cv, dv.take(j + 1)));
            }
        }
        j += 1;
    }
    proof {
        assert(dv.take(dv.len() as int) =~= dv);
    }
    ConvergencePlan { removals, additions }
}

/// One planned operation against the server, carrying the request path
/// it must be issued on.
#[derive(Debug, PartialEq, Eq)]
pub enum AccessOp {
    /// An HTTP DELETE: erases every permission the named principal holds
    /// on the scope, whatever level was matched.
    Remove { path: String },
    /// An HTTP PUT: sets the named principal's permission to one level.
    Add { path: String },
}

/// The path of a removal: the scope's permission path with the
/// percent-encoded principal name as the only query value.
pub open spec fn remove_op_path(base: Seq<char>, name: Seq<char>) -> Seq<char> {
    base + "?name="@ + percent_encoded(encode_utf8(name))
}

/// The path of an addition: the scope's permission path with the
/// percent-encoded target level and principal name as query values.
pub open spec fn add_op_path(base: Seq<char>, wire: Seq<char>, name: Seq<char>) -> Seq<char> {
    base + "?permission="@ + percent_encoded(encode_utf8(wire)) + "&name="@ + percent_encoded(
        encode_utf8(name),
    )
}

fn remove_op(base: &str, name: &str) -> (r: AccessOp)
    ensures
        r matches AccessOp::Remove { path } && path@ == remove_op_path(base@, name@),
{
    let mut p = base.to_owned();
    p.append("?name=");
    let encoded = percent_encode(name);
    p.append(encoded.as_str());
    AccessOp::Remove { path: p }
}

fn add_op(base: &str, wire: &str, name: &str) -> (r: AccessOp)
    ensures
        r matches AccessOp::Add { path } && path@ == add_op_path(base@, wire@, name@),
{
    let mut p = base.to_owned();
    p.append("?permission=");
    let encoded_wire = percent_encode(wire);
    p.append(encoded_wire.as_str());
    p.append("&name=");
    let encoded_name = percent_encode(name);
    p.append(encoded_name.as_str());
    AccessOp::Add { path: p }
}

/// Renders a plan as the ordered operation list: every removal strictly
/// precedes every addition. The order between the phases is what keeps a
/// principal whose level changes from losing the freshly written grant;
/// the order within each phase carries no meaning.
pub fn convergence_ops<L: PermissionLevel>(base: &str, plan: &ConvergencePlan<L>) -> (ops: Vec<
    AccessOp,
>)
    ensures
        ops@.len() == plan.removals@.len() + plan.additions@.len(),
        forall|i: int|
            0 <= i < plan.removals@.len() ==> (#[trigger] ops@[i] matches AccessOp::Remove {
                path,
            } && path@ == remove_op_path(base@, plan.removals@[i]@)),
        forall|j: int|
            0 <= j < plan.additions@.len() ==> (#[trigger] ops@[plan.removals@.len() + j] matches
                AccessOp::Add { path } && path@ == add_op_path(
                base@,
                plan.additions@[j].1.wire_view(),
                plan.additions@[j].0@,
            )),
{
    let mut ops: Vec<AccessOp> = Vec::new();
    let mut i: usize = 0;
    while i < plan.removals.len()
        invariant
            i <= plan.removals@.len(),
            ops@.len() == i,
            forall|k: int|
                0 <= k < i ==> (#[trigger] ops@[k] matches AccessOp::Remove { path } && path@
                    == remove_op_path(base@, plan.removals@[k]@)),
        decreases plan.removals@.len() - i,
    {
        ops.push(remove_op(base, plan.removals[i].as_str()));
        i += 1;
    }
    let mut j: usize = 0;
    while j < plan.additions.len()
        invariant
            j <= plan.additions@.len(),
            ops@.len() == plan.removals@.len() + j,
            forall|k: int|
                0 <= k < plan.removals@.len() ==> (#[trigger] ops@[k] matches AccessOp::Remove {
                    path,
                } && path@ == remove_op_path(base@, plan.removals@[k]@)),
            forall|k: int|
                0 <= k < j ==> (#[trigger] ops@[plan.removals@.len() + k] matches AccessOp::Add {
                    path,
                } && path@ == add_op_path(
                    base@,
                    plan.additions@[k].1.wire_view(),
                    plan.additions@[k].0@,
                )),
        decreases plan.additions@.len() - j,
    {
        let wire = plan.additions[j].1.wire();
        ops.push(add_op(base, wire.as_str(), plan.additions[j].0.as_str()));
        j += 1;
    }
    ops
}

/// The operation list a convergence plan renders to: first the removals
/// of `plan_removals`, in order, each a `Remove` keyed by the pair's
/// name alone; then the additions of `plan_additions`, in order, each an
/// `Add` keyed by name and level. Every removal strictly precedes every
/// addition.
pub open spec fn access_ops_correct<L: PermissionLevel>(
    ops: Seq<AccessOp>,
    base: Seq<char>,
    cur: Seq<(Seq<char>, L)>,
    des: Seq<(Seq<char>, L)>,
) -> bool {
    let rems = plan_removals(cur, des);
    let adds = plan_additions(cur, des);
    &&& ops.len() == rems.len() + adds.len()
    &&& forall|i: int|
        0 <= i < rems.len() ==> (#[trigger] ops[i] matches AccessOp::Remove { path } && path@
            == remove_op_path(base, rems[i].0))
    &&& forall|j: int|
        0 <= j < adds.len() ==> (#[trigger] ops[rems.len() + j] matches AccessOp::Add { path }
            && path@ == add_op_path(base, adds[j].1.wire_view(), adds[j].0))
}

/// Law: an operation list rendered from equal current and desired grant
/// sets — the same pairs, as sets — is empty: no write or delete is
/// issued when nothing needs to change.
pub proof fn lemma_ops_empty_on_equal<L: PermissionLevel>(
    ops: Seq<AccessOp>,
    base: Seq<char>,
    cur: Seq<(Seq<char>, L)>,
    des: Seq<(Seq<char>, L)>,
)
    requires
        access_ops_correct(ops, base, cur, des),
        forall|g: (Seq<char>, L)| cur.contains(g) <==> des.contains(g),
    ensures
        ops.len() == 0,
{
    lemma_no_op_on_equal_pairs(cur, des);
}

/// Diffs and renders in one step: the ordered operations that converge
/// the current (name, level) pairs to the desired ones on the scope
/// whose permission path is `base`.
pub fn access_ops<L: PermissionLevel>(
    base: &str,
    current: &Vec<(String, L)>,
    desired: &Vec<(String, L)>,
) -> (ops: Vec<AccessOp>)
    ensures
        access_ops_correct(ops@, base@, pair_views(current@), pair_views(desired@)),
{
    let plan = compute_plan(current, desired);
    let ops = convergence_ops(base, &plan);
    proof {
        let cv = pair_views(current@);
        let dv = pair_views(desired@);
        let rems = plan_removals(cv, dv);
        let adds = plan_additions(cv, dv);
        assert(plan.removals@.len() == rems.len()) by {
            assert(plan.removals@.map_values(|n: String| n@).len() == plan.removals@.len());
            assert(rems.map_values(|g: (Seq<char>, L)| g.0).len() == rems.len());
        }
        assert(pair_views(plan.additions@).len() == plan.additions@.len());
        assert forall|i: int| 0 <= i < rems.len() implies plan.removals@[i]@ == rems[i].0 by {
            assert(plan.removals@.map_values(|n: String| n@)[i] == plan.removals@[i]@);
            assert(rems.map_values(|g: (Seq<char>, L)| g.0)[i] == rems[i].0);
        }
        assert forall|j: int|
            0 <= j < adds.len() implies plan.additions@[j].0@ == adds[j].0 && plan.additions@[j].1
            == adds[j].1 by {
            assert(pair_views(plan.additions@)[j] == (plan.additions@[j].0@, plan.additions@[j].1));
        }
    }
    ops
}

/// The (name, level) views of a sequence of group grants: a group's
/// identity is its name.
pub open spec fn group_pair_views<P>(s: Seq<GroupAccess<P>>) -> Seq<(Seq<char>, P)> {
    s.map_values(|a: GroupAccess<P>| (a.group.name@, a.permission))
}

/// The (name, level) views of a sequence of user grants: a user's
/// identity is its account name.
pub open spec fn user_pair_views<P>(s: Seq<UserAccess<P>>) -> Seq<(Seq<char>, P)> {
    s.map_values(|a: UserAccess<P>| (a.user.name@, a.permission))
}

/// The (name, level) pairs of a list of group grants.
pub fn group_grant_pairs<P: PermissionLevel>(grants: &Vec<GroupAccess<P>>) -> (r: Vec<(String, P)>)
    ensures
        pair_views(r@) == group_pair_views(grants@),
{
    let mut r: Vec<(String, P)> = Vec::new();
    let mut i: usize = 0;
    while i < grants.len()
        invariant
            i <= grants@.len(),
            r@.len() == i,
            forall|k: int|
                0 <= k < i ==> (#[trigger] r@[k]).0@ == grants@[k].group.name@ && r@[k].1
                    == grants@[k].permission,
        decreases grants@.len() - i,
    {
        r.push((grants[i].group.name.clone(), grants[i].permission));
        i += 1;
    }
    proof {
        assert(pair_views(r@) =~= group_pair_views(grants@));
    }
    r
}

/// The (name, level) pairs of a list of user grants.
pub fn user_grant_pairs<P: PermissionLevel>(grants: &Vec<UserAccess<P>>) -> (r: Vec<(String, P)>)
    ensures
        pair_views(r@) == user_pair_views(grants@),
{
    let mut r: Vec<(String, P)> = Vec::new();
    let mut i: usize = 0;
    while i < grants.len()
        invariant
            i <= grants@.len(),
            r@.len() == i,
            forall|k: int|
                0 <= k < i ==> (#[trigger] r@[k]).0@ == grants@[k].user.name@ && r@[k].1
                    == grants@[k].permission,
        decreases grants@.len() - i,
    {
        r.push((grants[i].user.name.clone(), grants[i].permission));
        i += 1;
    }
    proof {
        assert(pair_views(r@) =~= user_pair_views(grants@));
    }
    r
}

/// The path listing the global group grants.
pub fn global_group_permissions_path() -> (r: String)
    ensures
        r@ == "rest/api/1.0/admin/permissions/groups"@,
{
    "rest/api/1.0/admin/permissions/groups".to_owned()
}

/// The path listing and mutating a project's group grants.
pub fn project_group_permissions_path(project_key: &str) -> (r: String)
    ensures
        r@ == "rest/api/1.0/projects/"@ + project_key@ + "/permissions/groups"@,
{
    let mut r = "rest/api/1.0/projects/".to_owned();
    r.append(project_key);
    r.append("/permissions/groups");
    r
}

/// The path listing and mutating a repository's group grants.
pub fn repository_group_permissions_path(project_key: &str, repository_slug: &str) -> (r: String)
    ensures
        r@ == "rest/api/1.0/projects/"@ + project_key@ + "/repos/"@ + repository_slug@
            + "/permissions/groups"@,
{
    let mut r = "rest/api/1.0/projects/".to_owned();
    r.append(project_key);
    r.append("/repos/");
    r.append(repository_slug);
    r.append("/permissions/groups");
    r
}

/// The path listing and mutating a project's user grants.
pub fn project_user_permissions_path(project_key: &str) -> (r: String)
    ensures
        r@ == "rest/api/1.0/projects/"@ + project_key@ + "/permissions/users"@,
{
    let mut r = "rest/api/1.0/projects/".to_owned();
    r.append(project_key);
    r.append("/permissions/users");
    r
}

/// The path listing and mutating a repository's user grants.
pub fn repository_user_permissions_path(project_key: &str, repository_slug: &str) -> (r: String)
    ensures
        r@ == "rest/api/1.0/projects/"@ + project_key@ + "/repos/"@ + repository_slug@
            + "/permissions/users"@,
{
    let mut r = "rest/api/1.0/projects/".to_owned();
    r.append(project_key);
    r.append("/repos/");
    r.append(repository_slug);
    r.append("/permissions/users");
    r
}

/// The ordered operations that converge a project's group grants from
/// `current` to `desired`: removals first, keyed by group name alone,
/// then additions keyed by name and level. The caller issues them in
/// order and stops at the first failure.
pub fn set_project_group_access(
    project_key: &str,
    current: &Vec<GroupAccess<ProjectPermission>>,
    desired: &Vec<GroupAccess<ProjectPermission>>,
) -> (ops: Vec<AccessOp>)
    ensures
        access_ops_correct(
            ops@,
            "rest/api/1.0/projects/"@ + project_key@ + "/permissions/groups"@,
            group_pair_views(current@),
            group_pair_views(desired@),
        ),
{
    let cur = group_grant_pairs(current);
    let des = group_grant_pairs(desired);
    let base = project_group_permissions_path(project_key);
    access_ops(base.as_str(), &cur, &des)
}

/// The ordered operations that converge a repository's group grants,
/// shaped as for `set_project_group_access`.
pub fn set_repository_group_access(
    project_key: &str,
    repository_slug: &str,
    current: &Vec<GroupAccess<RepositoryPermission>>,
    desired: &Vec<GroupAccess<RepositoryPermission>>,
) -> (ops: Vec<AccessOp>)
    ensures
        access_ops_correct(
            ops@,
            "rest/api/1.0/projects/"@ + project_key@ + "/repos/"@ + repository_slug@
                + "/permissions/groups"@,
            group_pair_views(current@),
            group_pair_views(desired@),
        ),
{
    let cur = group_grant_pairs(current);
    let des = group_grant_pairs(desired);
    let base = repository_group_permissions_path(project_key, repository_slug);
    access_ops(base.as_str(), &cur, &des)
}

/// The ordered operations that converge a project's user grants, shaped
/// as for `set_project_group_access`.
pub fn set_project_user_access(
    project_key: &str,
    current: &Vec<UserAccess<ProjectPermission>>,
    desired: &Vec<UserAccess<ProjectPermission>>,
) -> (ops: Vec<AccessOp>)
    ensures
        access_ops_correct(
            ops@,
            "rest/api/1.0/projects/"@ + project_key@ + "/permissions/users"@,
            user_pair_views(current@),
            user_pair_views(desired@),
        ),
{
    let cur = user_grant_pairs(current);
    let des = user_grant_pairs(desired);
    let base = project_user_permissions_path(project_key);
    access_ops(base.as_str(), &cur, &des)
}

/// The ordered operations that converge a repository's user grants,
/// shaped as for `set_project_group_access`.
pub fn set_repository_user_access(
    project_key: &str,
    repository_slug: &str,
    current: &Vec<UserAccess<RepositoryPermission>>,
    desired: &Vec<UserAccess<RepositoryPermission>>,
) -> (ops: Vec<AccessOp>)
    ensures
        access_ops_correct(
            ops@,
            "rest/api/1.0/projects/"@ + project_key@ + "/repos/"@ + repository_slug@
                + "/permissions/users"@,
            user_pair_views(current@),
            user_pair_views(desired@),
        ),
{
    let cur = user_grant_pairs(current);
    let des = user_grant_pairs(desired);
    let base = repository_user_permissions_path(project_key, repository_slug);
    access_ops(base.as_str(), &cur, &des)
}

/// The path listing a project's SSH key grants.
pub fn project_keys_path(project_key: &str) -> (r: String)
    ensures
        r@ == "rest/keys/1.0/projects/"@ + project_key@ + "/ssh"@,
{
    let mut r = "rest/keys/1.0/projects/".to_owned();
    r.append(project_key);
    r.append("/ssh");
    r
}

/// The path listing a repository's SSH key grants.
pub fn repository_keys_path(project_key: &str, repository_slug: &str) -> (r: String)
    ensures
        r@ == "rest/keys/1.0/projects/"@ + project_key@ + "/repos/"@ + repository_slug@ + "/ssh"@,
{
    let mut r = "rest/keys/1.0/projects/".to_owned();
    r.append(project_key);
    r.append("/repos/");
    r.append(repository_slug);
    r.append("/ssh");
    r
}

/// An SSH key as the server lists it.
#[derive(Debug)]
pub struct SshKey {
    pub id: u64,
    pub text: String,
    pub label: String,
}

/// An SSH key's access to a repository.
#[derive(Debug)]
pub struct RepositoryKeyAccess {
    pub key: SshKey,
    pub repository: Repository,
    pub permission: String,
}

/// An SSH key's access to a project.
#[derive(Debug)]
pub struct ProjectKeyAccess {
    pub key: SshKey,
    pub project: Project,
    pub permission: String,
}

} // verus!
