//! The cascade: merging every parent into its children, down the hierarchy.
//!
//! A branch is used as a merge source once: the list of the branches met so far is
//! what stops the walk on a hierarchy that was written with a cycle. Which merges
//! are attempted, and in what order, depends on the hierarchy and the roots alone,
//! never on how a merge ends.
//!
//! The command around the cascade asks the user and writes the settings. Those are
//! the caller's part; what is decided between them is decided here, one step at a
//! time.
use crate::cli::{strategy_named, BranchDetectionStrategy};
use crate::commands::walk::{
    cascade_edges, lemma_pending_drops, lemma_pending_shrinks, pending, visit, visit_children,
    visit_roots,
};
use crate::error::GitFlowError;
use crate::git::branch::BranchRelationStrategy;
use crate::git::merge::merge_branch;
use crate::text::join3;
use crate::tree::contains_name;
use crate::tree::{children_of, tree_edges, BranchTree, Edge, Name};
use vstd::prelude::*;
use vstd::string::StringExecFns;

verus! {

/// The branches that a list of names holds.
pub open spec fn names_met(names: Seq<Name>) -> Set<Name> {
    Set::new(|b: Name| names.contains(b))
}

/// Adds the walk from `branch` to `plan`, and the branches it meets to `processed`:
/// nothing where `branch` is among `processed` already; else the merge from
/// `branch` into each of its children, each followed by the walk from that child.
/// No merge is made here, so that the walk cannot depend on how a merge ends.
pub fn merge_recursive(
    tree: &BranchTree,
    branch: &str,
    processed: &mut Vec<String>,
    plan: &mut Vec<(String, String)>,
)
    ensures
        final(plan).deep_view() == old(plan).deep_view() + visit(
            tree@,
            branch@,
            names_met(old(processed).deep_view()),
        ).edges,
        names_met(final(processed).deep_view()) == names_met(old(processed).deep_view()).union(
            visit(tree@, branch@, names_met(old(processed).deep_view())).done,
        ),
    decreases pending(tree@, names_met(old(processed).deep_view())),
{
    let ghost m = tree@;
    let ghost done0 = names_met(processed.deep_view());
    let ghost plan0 = plan.deep_view();
    if contains_name(processed, branch) {
        assert(plan.deep_view() =~= plan0 + Seq::<Edge>::empty());
        assert(done0.union(done0) =~= done0);
        return ;
    }
    let ghost before = processed.deep_view();
    processed.push(branch.to_owned());
    let ghost done1 = done0.insert(branch@);
    proof {
        assert(processed.deep_view() =~= before.push(branch@));
        assert(names_met(processed.deep_view()) =~= done1) by {
            assert forall|x: Name| names_met(before.push(branch@)).contains(x) <==> done1.contains(
                x,
            ) by {
                if before.push(branch@).contains(x) {
                    let i = choose|i: int| 0 <= i < before.push(branch@).len() && before.push(
                        branch@,
                    )[i] == x;
                    if i < before.len() {
                        assert(before[i] == x);
                    }
                }
                if before.contains(x) {
                    let i = choose|i: int| 0 <= i < before.len() && before[i] == x;
                    assert(before.push(branch@)[i] == x);
                }
                if x == branch@ {
                    assert(before.push(branch@)[before.len() as int] == x);
                }
            }
        }
    }
    match tree.get(branch) {
        None => {
            assert(plan.deep_view() =~= plan0 + Seq::<Edge>::empty());
            assert(done0.union(done1) =~= done1);
        },
        Some(children) => {
            let ghost cs = children.deep_view();
            proof {
                lemma_pending_drops(m, done0, done1, branch@, m.len() as int);
            }
            let mut i: usize = 0;
            assert(plan.deep_view() =~= plan0 + Seq::<Edge>::empty());
            while i < children.len()
                invariant
                    i <= children.len(),
                    m == tree@,
                    cs == children.deep_view(),
                    cs == children_of(m, branch@),
                    done1.subset_of(names_met(processed.deep_view())),
                    done0 == names_met(old(processed).deep_view()),
                    pending(m, done1) < pending(m, done0),
                    visit_children(m, branch@, cs, 0, done1).edges == (plan.deep_view().subrange(
                        plan0.len() as int,
                        plan.deep_view().len() as int,
                    )) + visit_children(
                        m,
                        branch@,
                        cs,
                        i as int,
                        names_met(processed.deep_view()),
                    ).edges,
                    visit_children(m, branch@, cs, 0, done1).done == visit_children(
                        m,
                        branch@,
                        cs,
                        i as int,
                        names_met(processed.deep_view()),
                    ).done,
                    plan.deep_view().len() >= plan0.len(),
                    plan.deep_view().subrange(0, plan0.len() as int) == plan0,
                decreases children.len() - i,
            {
                let ghost done_i = names_met(processed.deep_view());
                let ghost plan_i = plan.deep_view();
                let child = children[i].as_str();
                plan.push((branch.to_owned(), children[i].clone()));
                let ghost plan_mid = plan.deep_view();
                proof {
                    assert(plan_mid =~= plan_i.push((branch@, cs[i as int])));
                    lemma_pending_shrinks(m, done1, done_i, m.len() as int);
                }
                merge_recursive(tree, child, processed, plan);
                proof {
                    let below = visit(m, cs[i as int], done_i);
                    let done_next = names_met(processed.deep_view());
                    assert(done_next == done_i.union(below.done));
                    assert(plan.deep_view() == plan_mid + below.edges);
                    let acc_i = plan_i.subrange(plan0.len() as int, plan_i.len() as int);
                    let acc_next = plan.deep_view().subrange(
                        plan0.len() as int,
                        plan.deep_view().len() as int,
                    );
                    assert(acc_next =~= acc_i + seq![(branch@, cs[i as int])] + below.edges);
                    let rest = visit_children(m, branch@, cs, i + 1, done_next);
                    assert(visit_children(m, branch@, cs, i as int, done_i).edges == seq![
                        (branch@, cs[i as int]),
                    ] + below.edges + rest.edges);
                    assert(acc_i + (seq![(branch@, cs[i as int])] + below.edges + rest.edges)
                        =~= acc_next + rest.edges);
                    assert(plan.deep_view().subrange(0, plan0.len() as int) =~= plan0);
                }
                i += 1;
            }
            proof {
                let acc = plan.deep_view().subrange(
                    plan0.len() as int,
                    plan.deep_view().len() as int,
                );
                assert(plan.deep_view() =~= plan0 + acc);
                assert(acc + Seq::<Edge>::empty() =~= acc);
                let w = visit_children(m, branch@, cs, 0, done1);
                assert(w.done == names_met(processed.deep_view()));
                assert(done0.subset_of(w.done));
                assert(done0.union(w.done) =~= w.done);
            }
        },
    }
}

/// The merges of a cascade over `tree` from `roots`, as pairs of the source and the
/// target, in the order in which they are to be attempted.
pub fn plan_cascade(tree: &BranchTree, roots: &Vec<String>) -> (plan: Vec<(String, String)>)
    ensures
        plan.deep_view() == cascade_edges(tree@, roots.deep_view()),
{
    let mut processed: Vec<String> = Vec::new();
    let mut plan: Vec<(String, String)> = Vec::new();
    let ghost m = tree@;
    let ghost rs = roots.deep_view();
    let mut i: usize = 0;
    proof {
        assert(names_met(processed.deep_view()) =~= Set::<Name>::empty());
        assert(plan.deep_view() + visit_roots(m, rs, 0, Set::empty()).edges =~= visit_roots(
            m,
            rs,
            0,
            Set::empty(),
        ).edges);
    }
    while i < roots.len()
        invariant
            i <= roots.len(),
            m == tree@,
            rs == roots.deep_view(),
            cascade_edges(m, rs) == plan.deep_view() + visit_roots(
                m,
                rs,
                i as int,
                names_met(processed.deep_view()),
            ).edges,
        decreases roots.len() - i,
    {
        let ghost done_i = names_met(processed.deep_view());
        let ghost plan_i = plan.deep_view();
        merge_recursive(tree, roots[i].as_str(), &mut processed, &mut plan);
        proof {
            let first = visit(m, rs[i as int], done_i);
            let rest = visit_roots(m, rs, i + 1, done_i.union(first.done));
            assert(plan_i + (first.edges + rest.edges) =~= (plan_i + first.edges) + rest.edges);
        }
        i += 1;
    }
    assert(plan.deep_view() + Seq::<Edge>::empty() =~= plan.deep_view());
    plan
}

/// How one merge of a cascade ended.
#[derive(Debug)]
pub struct EdgeOutcome {
    /// The branch that was merged from.
    pub parent: String,
    /// The branch that was merged into.
    pub child: String,
    /// Why the merge failed, where it did.
    pub failure: Option<GitFlowError>,
}

/// The merges of a list of outcomes, as edges.
pub open spec fn outcome_edges(outcomes: Seq<EdgeOutcome>) -> Seq<Edge> {
    Seq::new(outcomes.len(), |i: int| (outcomes[i].parent@, outcomes[i].child@))
}

/// The failure that the result of a merge holds, if it holds one.
pub open spec fn failure_of(result: Result<(), GitFlowError>) -> Option<GitFlowError> {
    match result {
        Ok(_) => None,
        Err(e) => Some(e),
    }
}

/// The report of one merge from `parent` into `child`, from the result that the
/// merge gave: the merge is marked as failed, with its failure, exactly where the
/// result is a failure.
pub fn edge_outcome(parent: &str, child: &str, result: Result<(), GitFlowError>) -> (outcome:
    EdgeOutcome)
    ensures
        outcome.parent@ == parent@,
        outcome.child@ == child@,
        outcome.failure == failure_of(result),
        outcome.failure is Some <==> result is Err,
{
    let failure = match result {
        Ok(()) => None,
        Err(e) => Some(e),
    };
    EdgeOutcome { parent: String::from_str(parent), child: String::from_str(child), failure }
}

/// Runs the cascade over `tree` from `roots`: merges every parent into its
/// children, and reports each merge with the way it ended, as `edge_outcome` makes
/// the report from the result of the merge. A merge that fails is reported as
/// failed, and the cascade goes on with the next: the merges that are attempted are
/// those of the plan, all of them and in its order, however they end.
pub fn run_cascade(repo: &git2::Repository, tree: &BranchTree, roots: &Vec<String>) -> (outcomes:
    Vec<EdgeOutcome>)
    ensures
        outcome_edges(outcomes@) == cascade_edges(tree@, roots.deep_view()),
{
    let plan = plan_cascade(tree, roots);
    let mut outcomes: Vec<EdgeOutcome> = Vec::new();
    let mut i: usize = 0;
    while i < plan.len()
        invariant
            i <= plan.len(),
            outcomes.len() == i,
            forall|k: int|
                0 <= k < i ==> (#[trigger] outcomes[k]).parent@ == plan[k].0@ && outcomes[k].child@
                    == plan[k].1@,
        decreases plan.len() - i,
    {
        let result = merge_branch(repo, plan[i].0.as_str(), plan[i].1.as_str());
        outcomes.push(edge_outcome(plan[i].0.as_str(), plan[i].1.as_str(), result));
        i += 1;
    }
    assert(outcome_edges(outcomes@) =~= plan.deep_view());
    outcomes
}

/// Where the cascade command stands.
#[derive(Debug, Clone, Copy, PartialEq, Eq, Structural)]
pub enum CascadePhase {
    /// Nothing was done yet.
    NotStarted,
    /// The hierarchy is being detected.
    Detecting,
    /// The user is asked whether to try another strategy.
    OfferingAlternative,
    /// The user is asked whether to keep the strategy that found a hierarchy.
    OfferingPersist,
    /// The strategy is being written to the settings.
    Persisting,
    /// The user is asked whether to go on with the merges.
    Confirming,
    /// The merges are being attempted.
    Running,
    /// Every merge was attempted.
    Completed,
    /// No strategy that was tried found a hierarchy: nothing to merge.
    NoHierarchy,
    /// The user declined the merges before any was attempted.
    Cancelled,
}

/// The cascade command between two steps.
#[derive(Debug, Clone, Copy, PartialEq, Eq, Structural)]
pub struct CascadeSession {
    /// Whether the merges go ahead without asking.
    pub yes: bool,
    /// Whether the caller named the strategy: no other is tried then.
    pub pinned: bool,
    /// The strategy that is tried first.
    pub primary: BranchRelationStrategy,
    /// The strategy that is being tried, or was tried last.
    pub strategy: BranchRelationStrategy,
    /// How many of the alternatives were passed.
    pub passed: u8,
    /// Where the command stands.
    pub phase: CascadePhase,
}

/// How the cascade command ended.
#[derive(Debug, Clone, Copy, PartialEq, Eq, Structural)]
pub enum CascadeEnd {
    /// There was nothing to merge. This is no failure.
    NoHierarchy,
    /// The user declined the merges.
    Cancelled,
    /// Every merge was attempted. This is a success, however the merges ended.
    Completed,
}

/// What the caller is to do next.
#[derive(Debug, Clone, Copy, PartialEq, Eq, Structural)]
pub enum CascadeAction {
    /// Detect the hierarchy by the strategy, and report whether there is one.
    Detect(BranchRelationStrategy),
    /// Ask whether to try the strategy, and report the answer.
    AskAlternative(BranchRelationStrategy),
    /// Ask whether to make the strategy the default, and report the answer.
    AskPersist(BranchRelationStrategy),
    /// Make the strategy the default in the settings, and report that it is done.
    Persist(BranchRelationStrategy),
    /// Show the planned merges, ask whether to proceed, and report the answer.
    AskProceed,
    /// Run the cascade over the hierarchy that was detected last, and report that
    /// it is done.
    Merge,
    /// Stop: the command has ended.
    Finish(CascadeEnd),
}

/// What the caller reports.
#[derive(Debug, Clone, Copy, PartialEq, Eq, Structural)]
pub enum CascadeEvent {
    /// The command begins.
    Begin,
    /// A detection ended; `found` says whether the hierarchy has any entry.
    Detected { found: bool },
    /// The user answered a question.
    Answered { yes: bool },
    /// The strategy was written to the settings.
    Persisted,
    /// The cascade has run.
    Merged,
}

/// The strategies that are tried after the first found nothing, in this order.
pub open spec fn alternative(i: int) -> BranchRelationStrategy {
    if i == 0 {
        BranchRelationStrategy::CreationTime
    } else if i == 1 {
        BranchRelationStrategy::DefaultRoot
    } else {
        BranchRelationStrategy::Manual
    }
}

/// The position of the next alternative from `from` on that is not the strategy
/// tried first; 3 where there is none.
pub open spec fn next_alternative(primary: BranchRelationStrategy, from: int) -> int
    decreases 3 - from,
{
    if from < 0 || from >= 3 {
        3
    } else if alternative(from) != primary {
        from
    } else {
        next_alternative(primary, from + 1)
    }
}

/// The step to the merges: at once where no question is to be asked, else by way
/// of the question.
pub open spec fn to_confirmation(s: CascadeSession) -> (CascadeSession, CascadeAction) {
    if s.yes {
        (CascadeSession { phase: CascadePhase::Running, ..s }, CascadeAction::Merge)
    } else {
        (CascadeSession { phase: CascadePhase::Confirming, ..s }, CascadeAction::AskProceed)
    }
}

/// The step to the next alternative: the offer of it, or the end where none is
/// left.
pub open spec fn to_next_alternative(s: CascadeSession) -> (CascadeSession, CascadeAction) {
    let i = next_alternative(s.primary, s.passed as int);
    if i < 3 {
        (
            CascadeSession {
                phase: CascadePhase::OfferingAlternative,
                strategy: alternative(i),
                passed: (i + 1) as u8,
                ..s
            },
            CascadeAction::AskAlternative(alternative(i)),
        )
    } else {
        (
            CascadeSession { phase: CascadePhase::NoHierarchy, passed: 3, ..s },
            CascadeAction::Finish(CascadeEnd::NoHierarchy),
        )
    }
}

/// What a session waits for: the action that it asked for last.
pub open spec fn awaited(s: CascadeSession) -> CascadeAction {
    match s.phase {
        CascadePhase::NotStarted => CascadeAction::Detect(s.primary),
        CascadePhase::Detecting => CascadeAction::Detect(s.strategy),
        CascadePhase::OfferingAlternative => CascadeAction::AskAlternative(s.strategy),
        CascadePhase::OfferingPersist => CascadeAction::AskPersist(s.strategy),
        CascadePhase::Persisting => CascadeAction::Persist(s.strategy),
        CascadePhase::Confirming => CascadeAction::AskProceed,
        CascadePhase::Running => CascadeAction::Merge,
        CascadePhase::Completed => CascadeAction::Finish(CascadeEnd::Completed),
        CascadePhase::NoHierarchy => CascadeAction::Finish(CascadeEnd::NoHierarchy),
        CascadePhase::Cancelled => CascadeAction::Finish(CascadeEnd::Cancelled),
    }
}

/// One step of the cascade command: the session after the event, and what the
/// caller is to do next. An event that the session does not wait for changes
/// nothing, and the session asks again for what it waits for.
pub open spec fn step(s: CascadeSession, e: CascadeEvent) -> (CascadeSession, CascadeAction) {
    match (s.phase, e) {
        (CascadePhase::NotStarted, CascadeEvent::Begin) => (
            CascadeSession { phase: CascadePhase::Detecting, strategy: s.primary, passed: 0, ..s },
            CascadeAction::Detect(s.primary),
        ),
        (CascadePhase::Detecting, CascadeEvent::Detected { found }) => if found {
            if s.passed == 0 {
                to_confirmation(s)
            } else {
                (
                    CascadeSession { phase: CascadePhase::OfferingPersist, ..s },
                    CascadeAction::AskPersist(s.strategy),
                )
            }
        } else if s.pinned {
            (
                CascadeSession { phase: CascadePhase::NoHierarchy, ..s },
                CascadeAction::Finish(CascadeEnd::NoHierarchy),
            )
        } else {
            to_next_alternative(s)
        },
        (CascadePhase::OfferingAlternative, CascadeEvent::Answered { yes }) => if yes {
            (CascadeSession { phase: CascadePhase::Detecting, ..s }, CascadeAction::Detect(s.strategy))
        } else {
            to_next_alternative(s)
        },
        (CascadePhase::OfferingPersist, CascadeEvent::Answered { yes }) => if yes {
            (
                CascadeSession { phase: CascadePhase::Persisting, ..s },
                CascadeAction::Persist(s.strategy),
            )
        } else {
            to_confirmation(s)
        },
        (CascadePhase::Persisting, CascadeEvent::Persisted) => to_confirmation(s),
        (CascadePhase::Confirming, CascadeEvent::Answered { yes }) => if yes {
            (CascadeSession { phase: CascadePhase::Running, ..s }, CascadeAction::Merge)
        } else {
            (
                CascadeSession { phase: CascadePhase::Cancelled, ..s },
                CascadeAction::Finish(CascadeEnd::Cancelled),
            )
        },
        (CascadePhase::Running, CascadeEvent::Merged) => (
            CascadeSession { phase: CascadePhase::Completed, ..s },
            CascadeAction::Finish(CascadeEnd::Completed),
        ),
        _ => (s, awaited(s)),
    }
}

impl CascadeSession {
    /// The session of a command that has not begun. A strategy named on the command
    /// line is the one to try, and the only one; else the configured strategy is
    /// tried first.
    pub fn new(
        yes: bool,
        strategy_opt: Option<BranchDetectionStrategy>,
        configured: BranchRelationStrategy,
    ) -> (s: Self)
        ensures
            s.yes == yes,
            s.pinned == strategy_opt.is_some(),
            s.primary == match strategy_opt {
                Some(named) => strategy_named(named),
                None => configured,
            },
            s.strategy == s.primary,
            s.passed == 0,
            s.phase == CascadePhase::NotStarted,
    {
        let primary = match strategy_opt {
            Some(named) => BranchRelationStrategy::from(named),
            None => configured,
        };
        CascadeSession {
            yes,
            pinned: strategy_opt.is_some(),
            primary,
            strategy: primary,
            passed: 0,
            phase: CascadePhase::NotStarted,
        }
    }

    /// The step to the merges.
    fn confirm(&mut self) -> (action: CascadeAction)
        ensures
            (*final(self), action) == to_confirmation(*old(self)),
    {
        if self.yes {
            self.phase = CascadePhase::Running;
            CascadeAction::Merge
        } else {
            self.phase = CascadePhase::Confirming;
            CascadeAction::AskProceed
        }
    }

    /// The step to the next alternative.
    fn offer_next(&mut self) -> (action: CascadeAction)
        ensures
            (*final(self), action) == to_next_alternative(*old(self)),
    {
        let mut i: u8 = self.passed;
        while i < 3 && strategy_at(i) == self.primary
            invariant
                next_alternative(self.primary, self.passed as int) == next_alternative(
                    self.primary,
                    i as int,
                ),
            decreases 3 - i,
        {
            i += 1;
        }
        if i < 3 {
            let offered = strategy_at(i);
            self.phase = CascadePhase::OfferingAlternative;
            self.strategy = offered;
            self.passed = i + 1;
            CascadeAction::AskAlternative(offered)
        } else {
            self.phase = CascadePhase::NoHierarchy;
            self.passed = 3;
            CascadeAction::Finish(CascadeEnd::NoHierarchy)
        }
    }

    /// The action that the session asked for last.
    pub fn awaited_action(&self) -> (action: CascadeAction)
        ensures
            action == awaited(*self),
    {
        match self.phase {
            CascadePhase::NotStarted => CascadeAction::Detect(self.primary),
            CascadePhase::Detecting => CascadeAction::Detect(self.strategy),
            CascadePhase::OfferingAlternative => CascadeAction::AskAlternative(self.strategy),
            CascadePhase::OfferingPersist => CascadeAction::AskPersist(self.strategy),
            CascadePhase::Persisting => CascadeAction::Persist(self.strategy),
            CascadePhase::Confirming => CascadeAction::AskProceed,
            CascadePhase::Running => CascadeAction::Merge,
            CascadePhase::Completed => CascadeAction::Finish(CascadeEnd::Completed),
            CascadePhase::NoHierarchy => CascadeAction::Finish(CascadeEnd::NoHierarchy),
            CascadePhase::Cancelled => CascadeAction::Finish(CascadeEnd::Cancelled),
        }
    }
}

/// The alternative at position `i`.
pub fn strategy_at(i: u8) -> (strategy: BranchRelationStrategy)
    ensures
        strategy == alternative(i as int),
{
    if i == 0 {
        BranchRelationStrategy::CreationTime
    } else if i == 1 {
        BranchRelationStrategy::DefaultRoot
    } else {
        BranchRelationStrategy::Manual
    }
}

/// The decisions of the cascade command, one step at a time: takes what the caller
/// reports and says what to do next.
///
/// The command detects the hierarchy by the first strategy. Where that finds none
/// and the strategy was not named by the caller, the alternatives are offered one
/// by one, but for the strategy tried first; the first that the user accepts and
/// that finds a hierarchy is kept, and may be made the default. Where no hierarchy
/// is found the command ends without a merge, which is no failure. Before the
/// merges the user is asked, unless the caller said not to ask; a refusal ends the
/// command before any merge. Once the merges run, the command ends as completed.
pub fn handle_cascade(session: &mut CascadeSession, event: CascadeEvent) -> (action: CascadeAction)
    ensures
        (*final(session), action) == step(*old(session), event),
{
    match (session.phase, event) {
        (CascadePhase::NotStarted, CascadeEvent::Begin) => {
            session.phase = CascadePhase::Detecting;
            session.strategy = session.primary;
            session.passed = 0;
            CascadeAction::Detect(session.primary)
        },
        (CascadePhase::Detecting, CascadeEvent::Detected { found }) => {
            if found {
                if session.passed == 0 {
                    session.confirm()
                } else {
                    session.phase = CascadePhase::OfferingPersist;
                    CascadeAction::AskPersist(session.strategy)
                }
            } else if session.pinned {
                session.phase = CascadePhase::NoHierarchy;
                CascadeAction::Finish(CascadeEnd::NoHierarchy)
            } else {
                session.offer_next()
            }
        },
        (CascadePhase::OfferingAlternative, CascadeEvent::Answered { yes }) => {
            if yes {
                session.phase = CascadePhase::Detecting;
                CascadeAction::Detect(session.strategy)
            } else {
                session.offer_next()
            }
        },
        (CascadePhase::OfferingPersist, CascadeEvent::Answered { yes }) => {
            if yes {
                session.phase = CascadePhase::Persisting;
                CascadeAction::Persist(session.strategy)
            } else {
                session.confirm()
            }
        },
        (CascadePhase::Persisting, CascadeEvent::Persisted) => session.confirm(),
        (CascadePhase::Confirming, CascadeEvent::Answered { yes }) => {
            if yes {
                session.phase = CascadePhase::Running;
                CascadeAction::Merge
            } else {
                session.phase = CascadePhase::Cancelled;
                CascadeAction::Finish(CascadeEnd::Cancelled)
            }
        },
        (CascadePhase::Running, CascadeEvent::Merged) => {
            session.phase = CascadePhase::Completed;
            CascadeAction::Finish(CascadeEnd::Completed)
        },
        _ => session.awaited_action(),
    }
}

/// The name of a strategy, as questions and messages show it.
pub open spec fn strategy_name(strategy: BranchRelationStrategy) -> Seq<char> {
    match strategy {
        BranchRelationStrategy::CommitHistory => "CommitHistory"@,
        BranchRelationStrategy::CreationTime => "CreationTime"@,
        BranchRelationStrategy::DefaultRoot => "DefaultRoot"@,
        BranchRelationStrategy::Manual => "Manual"@,
    }
}

/// The question that goes with an action, for the actions that ask the user.
pub open spec fn question(action: CascadeAction) -> Option<Seq<char>> {
    match action {
        CascadeAction::AskAlternative(strategy) => Some(
            "Try with "@ + strategy_name(strategy) + " strategy?"@,
        ),
        CascadeAction::AskPersist(_) => Some("Set this as your default strategy?"@),
        CascadeAction::AskProceed => Some("Proceed with merges?"@),
        _ => None,
    }
}

/// The name of `strategy`.
pub fn name_of_strategy(strategy: BranchRelationStrategy) -> (name: &'static str)
    ensures
        name@ == strategy_name(strategy),
{
    match strategy {
        BranchRelationStrategy::CommitHistory => "CommitHistory",
        BranchRelationStrategy::CreationTime => "CreationTime",
        BranchRelationStrategy::DefaultRoot => "DefaultRoot",
        BranchRelationStrategy::Manual => "Manual",
    }
}

/// The question to ask the user for `action`, where it is one that asks.
pub fn question_for(action: CascadeAction) -> (r: Option<String>)
    ensures
        match r {
            Some(text) => question(action) == Some(text@),
            None => question(action) is None,
        },
{
    match action {
        CascadeAction::AskAlternative(strategy) => Some(
            join3("Try with ", name_of_strategy(strategy), " strategy?"),
        ),
        CascadeAction::AskPersist(_) => Some(String::from_str("Set this as your default strategy?")),
        CascadeAction::AskProceed => Some(String::from_str("Proceed with merges?")),
        _ => None,
    }
}

/// How the command ends for its caller: a refusal of the user is an `Aborted`
/// error; a command that found nothing to merge, and one that attempted every
/// merge, have succeeded, however the merges ended.
pub fn command_result(end: CascadeEnd) -> (r: Result<(), GitFlowError>)
    ensures
        r is Ok <==> end != CascadeEnd::Cancelled,
        r matches Err(e) ==> (e matches GitFlowError::Aborted(message) && message@
            == "Merge operation cancelled"@),
{
    match end {
        CascadeEnd::Cancelled => Err(
            GitFlowError::Aborted(String::from_str("Merge operation cancelled")),
        ),
        CascadeEnd::NoHierarchy => Ok(()),
        CascadeEnd::Completed => Ok(()),
    }
}

/// The line that announces a merge.
pub open spec fn plan_line(edge: Edge) -> Seq<char> {
    "  "@ + edge.0 + " -> "@ + edge.1
}

/// The lines that announce the merges of a hierarchy before they are attempted:
/// one for each edge, entry by entry.
pub fn plan_lines(tree: &BranchTree) -> (lines: Vec<String>)
    ensures
        lines.len() == tree_edges(tree@, tree@.len() as int).len(),
        forall|i: int|
            0 <= i < lines.len() ==> (#[trigger] lines[i])@ == plan_line(
                tree_edges(tree@, tree@.len() as int)[i],
            ),
{
    let edges = tree.edges();
    let mut lines: Vec<String> = Vec::new();
    let mut i: usize = 0;
    while i < edges.len()
        invariant
            i <= edges.len(),
            lines.len() == i,
            forall|k: int| 0 <= k < i ==> (#[trigger] lines[k])@ == plan_line(edges.deep_view()[k]),
        decreases edges.len() - i,
    {
        let line = String::from_str("  ").concat(edges[i].0.as_str()).concat(" -> ").concat(
            edges[i].1.as_str(),
        );
        assert(edges.deep_view()[i as int] == (edges[i as int].0@, edges[i as int].1@));
        lines.push(line);
        i += 1;
    }
    lines
}

/// No merge is attempted without consent: the step to the merges is taken on the
/// user's yes to the question, or in a session that was told not to ask.
pub proof fn lemma_merges_need_consent(s: CascadeSession, e: CascadeEvent)
    requires
        s.phase != CascadePhase::Running,
        step(s, e).1 == CascadeAction::Merge,
    ensures
        s.yes || (s.phase == CascadePhase::Confirming && e == (CascadeEvent::Answered { yes: true })),
{
}

/// Once the merges run nothing aborts the command: whatever is reported, the
/// session stays with the merges or ends as completed, and a command that ended
/// stays as it ended.
pub proof fn lemma_running_ends_completed(s: CascadeSession, e: CascadeEvent)
    ensures
        s.phase == CascadePhase::Running ==> (step(s, e).0.phase == CascadePhase::Running || step(
            s,
            e,
        ).0.phase == CascadePhase::Completed),
        (s.phase == CascadePhase::Running && e == CascadeEvent::Merged) ==> step(s, e).1
            == CascadeAction::Finish(CascadeEnd::Completed),
        (s.phase == CascadePhase::Completed || s.phase == CascadePhase::NoHierarchy || s.phase
            == CascadePhase::Cancelled) ==> step(s, e).0 == s,
{
}

/// The strategy that was tried first is not offered again, an alternative is
/// offered only where the caller did not name the strategy and the last detection
/// found nothing or the last offer was declined, and the alternatives come in
/// their order.
pub proof fn lemma_alternatives_in_order(s: CascadeSession, e: CascadeEvent)
    requires
        s.phase != CascadePhase::OfferingAlternative || e != (CascadeEvent::Answered { yes: true }),
        step(s, e).1 is AskAlternative,
        step(s, e).0 != s,
    ensures
        step(s, e).1->AskAlternative_0 != s.primary,
        exists|i: int|
            s.passed <= i < 3 && step(s, e).1->AskAlternative_0 == #[trigger] alternative(i)
                && step(s, e).0.passed == i + 1 && forall|j: int|
                s.passed <= j < i ==> #[trigger] alternative(j) == s.primary,
        !s.pinned || s.phase == CascadePhase::OfferingAlternative,
{
    lemma_next_alternative(s.primary, s.passed as int);
    let i = next_alternative(s.primary, s.passed as int);
    assert(step(s, e) == to_next_alternative(s));
    assert(alternative(i) != s.primary);
}

/// The next alternative is the first one from `from` on that is not the primary.
pub proof fn lemma_next_alternative(primary: BranchRelationStrategy, from: int)
    requires
        0 <= from,
    ensures
        from <= next_alternative(primary, from) <= 3 || (from > 3 && next_alternative(primary, from)
            == 3),
        next_alternative(primary, from) < 3 ==> alternative(next_alternative(primary, from))
            != primary,
        forall|j: int| from <= j < next_alternative(primary, from) ==> #[trigger] alternative(j) == primary,
    decreases 3 - from,
{
    if from < 3 && alternative(from) == primary {
        lemma_next_alternative(primary, from + 1);
    }
}

} // verus!
