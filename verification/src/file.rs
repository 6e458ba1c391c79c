use vstd::prelude::*;
use crate::error::ApiError;
use crate::project::Project;
use crate::repository::Repository;

verus! {

/// A materialized leaf of the filtered enumeration: one file path of one
/// repository of one project.
#[derive(Debug)]
pub struct FileLocation {
    pub project: Project,
    pub repository: Repository,
    pub path: String,
}

impl FileLocation {
    pub fn new(project: Project, repository: Repository, path: String) -> (r: FileLocation)
        ensures
            r.project == project,
            r.repository == repository,
            r.path == path,
    {
        FileLocation { project, repository, path }
    }
}

impl Clone for FileLocation {
    fn clone(&self) -> (r: Self)
        ensures
            r == *self,
    {
        FileLocation {
            project: self.project.clone(),
            repository: self.repository.clone(),
            path: self.path.clone(),
        }
    }
}

/// The elements of `s` whose mask bit is set, in order.
pub open spec fn mask_filter<T>(s: Seq<T>, keep: Seq<bool>) -> Seq<T>
    recommends
        keep.len() == s.len(),
    decreases s.len(),
{
    if s.len() == 0 {
        Seq::empty()
    } else if keep.len() == s.len() && keep.last() {
        mask_filter(s.drop_last(), keep.drop_last()).push(s.last())
    } else {
        mask_filter(s.drop_last(), keep.drop_last())
    }
}

proof fn lemma_mask_filter_push<T>(s: Seq<T>, keep: Seq<bool>, x: T, b: bool)
    requires
        keep.len() == s.len(),
    ensures
        mask_filter(s.push(x), keep.push(b)) == (if b {
            mask_filter(s, keep).push(x)
        } else {
            mask_filter(s, keep)
        }),
{
    assert(s.push(x).drop_last() =~= s);
    assert(keep.push(b).drop_last() =~= keep);
}

/// Law: an item the mask rejects wherever it occurs is absent from the
/// retained items.
pub proof fn lemma_mask_filter_excludes<T>(s: Seq<T>, keep: Seq<bool>, x: T)
    requires
        keep.len() == s.len(),
        forall|i: int| 0 <= i < s.len() && s[i] == x ==> !(#[trigger] keep[i]),
    ensures
        !mask_filter(s, keep).contains(x),
    decreases s.len(),
{
    if s.len() > 0 {
        let b = s.drop_last();
        let kb = keep.drop_last();
        assert(forall|i: int| 0 <= i < b.len() && b[i] == x ==> !(#[trigger] kb[i])) by {
            assert(forall|i: int| 0 <= i < b.len() ==> b[i] == s[i] && kb[i] == #[trigger] keep[i]);
        }
        lemma_mask_filter_excludes(b, kb, x);
        let sub = mask_filter(b, kb);
        if keep.last() {
            assert(s[s.len() - 1] != x);
            assert(mask_filter(s, keep) == sub.push(s.last()));
            if sub.push(s.last()).contains(x) {
                let i = choose|i: int|
                    0 <= i < sub.push(s.last()).len() && sub.push(s.last())[i] == x;
                if i < sub.len() {
                    assert(sub[i] == x);
                    assert(sub.contains(x));
                }
                assert(false);
            }
        }
    }
}

/// Retains the items the predicate accepts, in input order, calling it
/// once per item; the witness mask records what each call answered.
pub fn filter_retained<T, F: Fn(&T) -> bool>(items: Vec<T>, pred: F) -> (r: Vec<T>)
    requires
        forall|t: T| #[trigger] call_requires(pred, (&t,)),
    ensures
        exists|keep: Seq<bool>|
            keep.len() == items@.len() && (forall|i: int|
                0 <= i < items@.len() ==> call_ensures(pred, (&items@[i],), #[trigger] keep[i]))
                && r@ == mask_filter(items@, keep),
{
    let ghost orig = items@;
    let mut items = items;
    let mut r: Vec<T> = Vec::new();
    let ghost mut keep: Seq<bool> = Seq::empty();
    while items.len() > 0
        invariant
            keep.len() + items@.len() == orig.len(),
            items@ == orig.skip(keep.len() as int),
            forall|i: int| 0 <= i < keep.len() ==> call_ensures(pred, (&orig[i],), #[trigger] keep[i]),
            r@ == mask_filter(orig.take(keep.len() as int), keep),
            forall|t: T| #[trigger] call_requires(pred, (&t,)),
        decreases items@.len(),
    {
        let ghost k = keep.len() as int;
        let t = items.remove(0);
        proof {
            assert(orig.skip(k)[0] == orig[k]);
            assert(items@ =~= orig.skip(k + 1));
        }
        let ok = pred(&t);
        proof {
            assert(orig.take(k + 1) =~= orig.take(k).push(orig[k]));
            lemma_mask_filter_push(orig.take(k), keep, orig[k], ok);
            keep = keep.push(ok);
        }
        if ok {
            r.push(t);
        }
    }
    proof {
        assert(orig.take(keep.len() as int) =~= orig);
        assert(keep.len() == orig.len() && (forall|i: int|
            0 <= i < orig.len() ==> call_ensures(pred, (&orig[i],), #[trigger] keep[i])) && r@
            == mask_filter(orig, keep));
    }
    r
}

/// Law (pruning): when the predicate can only answer `false` of an
/// item, the retained list never contains it — for the project level,
/// no repository request is ever issued for a rejected project.
pub proof fn lemma_rejected_never_retained<T, F: Fn(&T) -> bool>(
    pred: F,
    items: Seq<T>,
    keep: Seq<bool>,
    x: T,
)
    requires
        !call_ensures(pred, (&x,), true),
        keep.len() == items.len(),
        forall|i: int| 0 <= i < items.len() ==> call_ensures(pred, (&items[i],), #[trigger] keep[i]),
    ensures
        !mask_filter(items, keep).contains(x),
{
    assert forall|i: int| 0 <= i < items.len() && items[i] == x implies !(#[trigger] keep[i]) by {
        if keep[i] {
            assert(call_ensures(pred, (&items[i],), true));
        }
    }
    lemma_mask_filter_excludes(items, keep, x);
}

/// Builds the locations of one (project, repository) branch: one
/// location per retained file path, in the server's listing order.
pub fn branch_locations<F: Fn(&String) -> bool>(
    project: &Project,
    repository: &Repository,
    paths: Vec<String>,
    file_pred: F,
) -> (r: Vec<FileLocation>)
    requires
        forall|t: String| #[trigger] call_requires(file_pred, (&t,)),
    ensures
        exists|keep: Seq<bool>|
            keep.len() == paths@.len() && (forall|i: int|
                0 <= i < paths@.len() ==> call_ensures(
                    file_pred,
                    (&paths@[i],),
                    #[trigger] keep[i],
                )) && r@.len() == mask_filter(paths@, keep).len() && (forall|i: int|
                0 <= i < r@.len() ==> (#[trigger] r@[i]).project == *project && r@[i].repository
                    == *repository && r@[i].path == mask_filter(paths@, keep)[i]),
{
    let ghost pv = paths@;
    let kept = filter_retained(paths, file_pred);
    let ghost keep = choose|keep: Seq<bool>|
        keep.len() == pv.len() && (forall|i: int|
            0 <= i < pv.len() ==> call_ensures(file_pred, (&pv[i],), #[trigger] keep[i])) && kept@
            == mask_filter(pv, keep);
    let mut r: Vec<FileLocation> = Vec::new();
    let mut i: usize = 0;
    while i < kept.len()
        invariant
            i <= kept@.len(),
            r@.len() == i,
            forall|j: int|
                0 <= j < i ==> (#[trigger] r@[j]).project == *project && r@[j].repository
                    == *repository && r@[j].path == kept@[j],
        decreases kept@.len() - i,
    {
        r.push(
            FileLocation {
                project: project.clone(),
                repository: repository.clone(),
                path: kept[i].clone(),
            },
        );
        i += 1;
    }
    r
}

/// Whether every branch of a fan-out succeeded.
pub open spec fn all_branches_ok(s: Seq<Result<Vec<FileLocation>, ApiError>>) -> bool {
    forall|i: int| 0 <= i < s.len() ==> (#[trigger] s[i]) is Ok
}

/// The locations of a fan-out's branches, in branch order.
pub open spec fn branch_values(s: Seq<Result<Vec<FileLocation>, ApiError>>) -> Seq<FileLocation>
    decreases s.len(),
{
    if s.len() == 0 {
        Seq::empty()
    } else {
        branch_values(s.drop_last()) + (if s.last() is Ok {
            s.last()->Ok_0@
        } else {
            Seq::empty()
        })
    }
}

/// The error of the first failing branch, in branch order.
pub open spec fn first_branch_error(s: Seq<Result<Vec<FileLocation>, ApiError>>) -> ApiError
    recommends
        !all_branches_ok(s),
    decreases s.len(),
{
    if s.len() == 0 {
        arbitrary()
    } else if s[0] is Err {
        s[0]->Err_0
    } else {
        first_branch_error(s.drop_first())
    }
}

proof fn lemma_branch_values_push(
    s: Seq<Result<Vec<FileLocation>, ApiError>>,
    x: Result<Vec<FileLocation>, ApiError>,
)
    ensures
        branch_values(s.push(x)) == branch_values(s) + (if x is Ok {
            x->Ok_0@
        } else {
            Seq::empty()
        }),
{
    assert(s.push(x).drop_last() =~= s);
}

proof fn lemma_first_error_at(s: Seq<Result<Vec<FileLocation>, ApiError>>, k: int)
    requires
        0 <= k < s.len(),
        forall|i: int| 0 <= i < k ==> (#[trigger] s[i]) is Ok,
        s[k] is Err,
    ensures
        !all_branches_ok(s),
        first_branch_error(s) == s[k]->Err_0,
    decreases k,
{
    if k > 0 {
        assert(s[0] is Ok);
        let rest = s.drop_first();
        assert(forall|i: int| 0 <= i < k - 1 ==> (#[trigger] rest[i]) is Ok) by {
            assert(forall|i: int| 0 <= i < rest.len() ==> (#[trigger] rest[i]) == s[i + 1]);
        }
        assert(rest[k - 1] == s[k]);
        lemma_first_error_at(rest, k - 1);
    }
}

/// Folds a fan-out's branch results: when every branch succeeded, every
/// branch's locations in branch order; otherwise the error of the first
/// failing branch in branch order, wrapped as an aggregate error. The
/// first-in-branch-order rule makes the selection deterministic even
/// when the branches themselves ran concurrently.
pub fn collect_branches(branches: Vec<Result<Vec<FileLocation>, ApiError>>) -> (r: Result<
    Vec<FileLocation>,
    ApiError,
>)
    ensures
        all_branches_ok(branches@) ==> (r matches Ok(locs) && locs@ == branch_values(branches@)),
        !all_branches_ok(branches@) ==> (r matches Err(e) && e matches ApiError::Aggregate(inner)
            && inner == first_branch_error(branches@)),
{
    let ghost orig = branches@;
    let mut rest = branches;
    let mut out: Vec<FileLocation> = Vec::new();
    let ghost mut k: int = 0;
    while rest.len() > 0
        invariant
            orig == branches@,
            0 <= k,
            k + rest@.len() == orig.len(),
            rest@ == orig.skip(k),
            forall|i: int| 0 <= i < k ==> (#[trigger] orig[i]) is Ok,
            out@ == branch_values(orig.take(k)),
        decreases rest@.len(),
    {
        let b = rest.remove(0);
        proof {
            assert(orig.skip(k)[0] == orig[k]);
            assert(rest@ =~= orig.skip(k + 1));
            assert(orig.take(k + 1) =~= orig.take(k).push(orig[k]));
            lemma_branch_values_push(orig.take(k), orig[k]);
        }
        match b {
            Ok(mut v) => {
                out.append(&mut v);
                proof {
                    k = k + 1;
                }
            },
            Err(e) => {
                proof {
                    lemma_first_error_at(orig, k);
                }
                return Err(ApiError::Aggregate(Box::new(e)));
            },
        }
    }
    proof {
        assert(orig.take(k) =~= orig);
        assert(all_branches_ok(orig));
    }
    Ok(out)
}

} // verus!
