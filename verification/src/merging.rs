use vstd::prelude::*;
use crate::repository::Repository;
use crate::user::User;

verus! {

/// The kind of a ref matcher.
#[derive(Debug)]
pub struct MatcherType {
    pub id: String,
    pub name: String,
}

/// A branch pattern a merge-approval condition applies to.
#[derive(Debug)]
pub struct RefMatcher {
    pub active: bool,
    pub id: String,
    pub display_id: String,
    pub _type: MatcherType,
}

/// One merge-approval condition of a repository: who must approve
/// merges between the matched branches, and how many approvals are
/// required.
#[derive(Debug)]
pub struct DefaultReviewerGroup {
    pub id: u64,
    pub repository: Repository,
    pub source_ref_matcher: RefMatcher,
    pub target_ref_matcher: RefMatcher,
    pub reviewers: Vec<User>,
    pub required_approvals: u64,
}

} // verus!
