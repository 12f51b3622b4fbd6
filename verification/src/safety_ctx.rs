//! Safety contexts: rule sets in the order in which they were enabled, and
//! their composition into one policy of the enforcement engine.
//!
//! Composing walks the rule sets from first to last. For each it starts from
//! the engine's most restrictive policy of the category, applies the rule
//! set's permissions in their order, and merges the policy into the context.
//! A permission for one descriptor cannot be applied from here: the composer
//! hands the policy out, the driver allows the descriptor on it and resumes.
//!
//! What a composition comes to is stated over the values that it starts from:
//! the context, and for each rule set the policy that its policy is built on.
//! Composing afresh takes them from the engine, each holding no rule.

use crate::category::{is_flag, lemma_flags_upto, CategoryKind, Permission};
use crate::engine::{
    after_grant, after_grants, context_syscalls, enabled, holds_nothing, lemma_grant_keeps_kind,
    Context, EnginePolicy, Policy,
};
use crate::error::Error;
use crate::rule_sets::{DataRuleSet, RuleSetView};
use vstd::prelude::*;

verus! {

/// What composing the rule sets applies: for each rule set, in the order of
/// the context, its permissions in the order in which they are applied.
pub open spec fn context_plan(rules: Seq<RuleSetView>) -> Seq<Seq<Permission>> {
    Seq::new(rules.len(), |i: int| rules[i].permissions())
}

/// The categories of the rule sets, in the order of the context.
pub open spec fn context_kinds(rules: Seq<RuleSetView>) -> Seq<CategoryKind> {
    Seq::new(rules.len(), |i: int| rules[i].kind)
}

/// Every permission of every plan belongs to the category of its plan.
pub open spec fn plans_fit(kinds: Seq<CategoryKind>, plans: Seq<Seq<Permission>>) -> bool {
    &&& kinds.len() == plans.len()
    &&& forall|i: int, j: int|
        0 <= i < plans.len() && 0 <= j < plans[i].len() ==> (#[trigger] plans[i][j]).spec_category()
            == kinds[i]
}

/// How far a walk over the plans comes without its driver.
pub ghost enum Walk {
    /// Every policy has been merged; this is the context.
    Complete { context: extrasafe::SafetyContext },
    /// The permission at `entry` of the plan `index` is for one descriptor:
    /// `policy` is handed out, and `context` holds what was merged before.
    Whitelist { index: nat, entry: nat, context: extrasafe::SafetyContext, policy: EnginePolicy },
    /// The engine has rejected `policy`, the policy of the plan `index`, for
    /// `context`.
    Failed { index: nat, context: extrasafe::SafetyContext, policy: EnginePolicy },
}

/// The walk over the plans from the place (`index`, `entry`), with `context`
/// merged so far and `policy` under construction (`None`: the policy of the
/// plan `index` has not been started). `starts` holds, for each plan, the
/// policy that its policy is built on.
///
/// A flag is applied to the policy. At the end of its plan the policy is
/// merged: the walk goes on with the context that the engine gives, or fails
/// there if the engine rejects the policy, and no later plan is tried. A
/// permission for one descriptor stops the walk until the driver has applied
/// it.
pub open spec fn walk(
    context: extrasafe::SafetyContext,
    policy: Option<EnginePolicy>,
    starts: Seq<EnginePolicy>,
    plans: Seq<Seq<Permission>>,
    index: nat,
    entry: nat,
) -> Walk
    decreases plans.len() - index, plans[index as int].len() - entry,
{
    if index >= plans.len() {
        Walk::Complete { context }
    } else {
        let current = match policy {
            Some(started) => started,
            None => starts[index as int],
        };
        if entry >= plans[index as int].len() {
            match enabled(context, current) {
                Some(merged) => walk(merged, None, starts, plans, index + 1, 0),
                None => Walk::Failed { index, context, policy: current },
            }
        } else if is_flag(plans[index as int][entry as int]) {
            walk(
                context,
                Some(after_grant(current, plans[index as int][entry as int])),
                starts,
                plans,
                index,
                entry + 1,
            )
        } else {
            Walk::Whitelist { index, entry, context, policy: current }
        }
    }
}

/// The engine's policies of policies under construction.
pub open spec fn engines(policies: Seq<Policy>) -> Seq<EnginePolicy> {
    Seq::new(policies.len(), |i: int| policies[i].engine())
}

/// There is one starting policy for each category, and it is of that category.
pub open spec fn starts_fit(kinds: Seq<CategoryKind>, starts: Seq<EnginePolicy>) -> bool {
    &&& starts.len() == kinds.len()
    &&& forall|i: int| 0 <= i < starts.len() ==> (#[trigger] starts[i]).kind() == kinds[i]
}

/// Every starting policy is the most restrictive one of its category.
pub open spec fn starts_fresh(starts: Seq<EnginePolicy>) -> bool {
    forall|i: int| 0 <= i < starts.len() ==> holds_nothing(#[trigger] starts[i])
}

/// A composition that waits for its driver: the engine's I/O policy of one
/// rule set is out, for one descriptor to be allowed on it.
pub struct Composer {
    context: Context,
    kinds: Vec<CategoryKind>,
    plans: Vec<Vec<Permission>>,
    remaining: Vec<Policy>,
    index: usize,
    entry: usize,
    starts: Ghost<Seq<EnginePolicy>>,
}

/// The plans as sequences.
pub open spec fn steps(plans: Seq<Vec<Permission>>) -> Seq<Seq<Permission>> {
    Seq::new(plans.len(), |i: int| plans[i]@)
}

impl Composer {
    #[verifier::type_invariant]
    spec fn inv(self) -> bool {
        &&& plans_fit(self.kinds@, steps(self.plans@))
        &&& starts_fit(self.kinds@, self.starts@)
        &&& self.index < self.plans@.len()
        &&& self.entry < self.plans@[self.index as int]@.len()
        &&& !is_flag(self.plans@[self.index as int]@[self.entry as int])
        &&& engines(self.remaining@) == self.starts@.skip(self.index + 1)
    }

    /// The engine's context with what has been merged so far.
    pub closed spec fn context(self) -> extrasafe::SafetyContext {
        self.context.engine()
    }

    /// What the whole composition applies: the plan of every rule set.
    pub closed spec fn target(self) -> Seq<Seq<Permission>> {
        steps(self.plans@)
    }

    /// The categories of the rule sets.
    pub closed spec fn kinds(self) -> Seq<CategoryKind> {
        self.kinds@
    }

    /// The policies that the policies of the rule sets are built on.
    pub closed spec fn starts(self) -> Seq<EnginePolicy> {
        self.starts@
    }

    /// The rule set whose policy is out.
    pub closed spec fn index(self) -> nat {
        self.index as nat
    }

    /// The position, in the plan of that rule set, of the permission that the
    /// driver is asked to apply.
    pub closed spec fn entry(self) -> nat {
        self.entry as nat
    }
}

/// How far a composition has come.
pub enum Composition {
    /// Every rule set has been merged.
    Complete(Context),
    /// The driver is to allow the descriptor of `permission` on `policy` and
    /// to resume `pending` with the policy that comes out.
    Whitelist {
        policy: extrasafe::builtins::systemio::SystemIO,
        permission: Permission,
        pending: Composer,
    },
    /// The engine has rejected a rule set; `cause` is its own error.
    Failed { error: Error, cause: extrasafe::ExtraSafeError },
}

impl Composition {
    /// The composition has come as far as the walk `reached` over `plans`.
    ///
    /// Complete, it holds the context of the walk. Waiting, it has handed out
    /// the policy of the walk, asks for the permission at the place of the
    /// walk, and keeps the context of the walk for the resumption. Failed, it
    /// names the rule set at which the walk fails, and its category.
    pub open spec fn agrees(
        self,
        reached: Walk,
        kinds: Seq<CategoryKind>,
        plans: Seq<Seq<Permission>>,
        starts: Seq<EnginePolicy>,
    ) -> bool {
        match self {
            Composition::Complete(context) => reached == (Walk::Complete {
                context: context.engine(),
            }),
            Composition::Whitelist { policy, permission, pending } => {
                &&& reached == (Walk::Whitelist {
                    index: pending.index(),
                    entry: pending.entry(),
                    context: pending.context(),
                    policy: EnginePolicy::Io(policy),
                })
                &&& pending.index() < plans.len()
                &&& pending.entry() < plans[pending.index() as int].len()
                &&& permission == plans[pending.index() as int][pending.entry() as int]
                &&& pending.target() == plans
                &&& pending.kinds() == kinds
                &&& pending.starts() == starts
            },
            Composition::Failed { error, .. } => {
                &&& reached is Failed
                &&& reached->Failed_index < plans.len()
                &&& error == (Error::PolicyError {
                    category: kinds[reached->Failed_index as int],
                    index: reached->Failed_index as usize,
                })
            },
        }
    }

    /// The composition is what composing afresh comes to: the walk over
    /// `plans` from `context`, a context that holds no rule, with each policy
    /// built on the most restrictive policy of its category, as `starts` has
    /// them.
    pub open spec fn composed_afresh(
        self,
        context: extrasafe::SafetyContext,
        starts: Seq<EnginePolicy>,
        kinds: Seq<CategoryKind>,
        plans: Seq<Seq<Permission>>,
    ) -> bool {
        &&& context_syscalls(context) == Set::<int>::empty()
        &&& starts_fit(kinds, starts)
        &&& starts_fresh(starts)
        &&& self.agrees(walk(context, None, starts, plans, 0, 0), kinds, plans, starts)
    }

    /// The composition is what enabling one rule set on `context` comes to:
    /// the walk over its plan, with its policy built on `start`, the most
    /// restrictive policy of its category.
    pub open spec fn enabled_afresh(
        self,
        context: extrasafe::SafetyContext,
        start: EnginePolicy,
        rules: RuleSetView,
    ) -> bool {
        &&& start.kind() == rules.kind
        &&& holds_nothing(start)
        &&& self.agrees(
            walk(context, None, seq![start], seq![rules.permissions()], 0, 0),
            seq![rules.kind],
            seq![rules.permissions()],
            seq![start],
        )
    }
}

/// The engine's policy of a policy under construction, if there is one.
pub open spec fn started(policy: Option<Policy>) -> Option<EnginePolicy> {
    match policy {
        Some(current) => Some(current.engine()),
        None => None,
    }
}

/// Whether a permission is a flag, not a grant for one descriptor.
fn permission_is_flag(permission: Permission) -> (flag: bool)
    ensures
        flag == is_flag(permission),
{
    match permission {
        Permission::FileRead(_) => false,
        Permission::FileWrite(_) => false,
        _ => true,
    }
}

/// Walks the plans from the place (`index`, `entry`): applies flags, merges
/// each finished policy, and stops where the driver is needed, where the engine
/// rejects a policy, or at the end. `remaining` holds the starting policies of
/// the plans that have not been started.
fn run(
    context: Context,
    kinds: Vec<CategoryKind>,
    plans: Vec<Vec<Permission>>,
    remaining: Vec<Policy>,
    index: usize,
    entry: usize,
    policy: Option<Policy>,
    starts: Ghost<Seq<EnginePolicy>>,
) -> (reached: Composition)
    requires
        plans_fit(kinds@, steps(plans@)),
        starts_fit(kinds@, starts@),
        index <= plans@.len(),
        match policy {
            Some(current) => {
                &&& index < plans@.len()
                &&& entry <= plans@[index as int]@.len()
                &&& current.kind() == kinds@[index as int]
                &&& engines(remaining@) == starts@.skip(index + 1)
            },
            None => entry == 0 && engines(remaining@) == starts@.skip(index as int),
        },
    ensures
        reached.agrees(
            walk(
                context.engine(),
                started(policy),
                starts@,
                steps(plans@),
                index as nat,
                entry as nat,
            ),
            kinds@,
            steps(plans@),
            starts@,
        ),
{
    let ghost target = steps(plans@);
    let ghost goal = walk(
        context.engine(),
        started(policy),
        starts@,
        target,
        index as nat,
        entry as nat,
    );
    let mut held = context;
    let mut rest = remaining;
    let mut at = index;
    let mut step = entry;
    let mut current = policy;
    loop
        invariant
            target == steps(plans@),
            plans_fit(kinds@, target),
            starts_fit(kinds@, starts@),
            at <= plans@.len(),
            goal == walk(
                context.engine(),
                started(policy),
                starts@,
                target,
                index as nat,
                entry as nat,
            ),
            goal == walk(held.engine(), started(current), starts@, target, at as nat, step as nat),
            match current {
                Some(policy) => {
                    &&& at < plans@.len()
                    &&& step <= plans@[at as int]@.len()
                    &&& policy.kind() == kinds@[at as int]
                    &&& engines(rest@) == starts@.skip(at + 1)
                },
                None => step == 0 && engines(rest@) == starts@.skip(at as int),
            },
        decreases
                plans@.len() - at,
                if at < plans@.len() {
                    plans@[at as int]@.len() - step
                } else {
                    0
                },
    {
        if at == plans.len() {
            return Composition::Complete(held);
        }
        assert(target[at as int] == plans@[at as int]@);
        let building = match current {
            Some(policy) => policy,
            None => {
                let ghost before = rest@;
                assert(engines(before).len() == starts@.len() - at);
                assert(engines(before)[0] == starts@[at as int]);
                let first = rest.remove(0);
                assert(engines(rest@) =~= starts@.skip(at + 1)) by {
                    assert forall|i: int| 0 <= i < rest@.len() implies engines(rest@)[i]
                        == starts@.skip(at + 1)[i] by {
                        assert(rest@[i] == before[i + 1]);
                        assert(engines(before)[i + 1] == starts@.skip(at as int)[i + 1]);
                    }
                }
                first
            },
        };
        assert(building.engine() == match current {
            Some(policy) => policy.engine(),
            None => starts@[at as int],
        });
        if step == plans[at].len() {
            match held.merge(building) {
                Ok(merged) => {
                    held = merged;
                    at = at + 1;
                    step = 0;
                    current = None;
                },
                Err(cause) => {
                    return Composition::Failed {
                        error: Error::PolicyError { category: kinds[at], index: at },
                        cause,
                    };
                },
            }
        } else {
            let permission = plans[at][step];
            assert(permission == target[at as int][step as int]);
            if permission_is_flag(permission) {
                proof {
                    lemma_grant_keeps_kind(building.engine(), permission);
                }
                current = Some(building.grant(permission));
                step = step + 1;
            } else {
                let policy = building.into_io();
                return Composition::Whitelist {
                    policy,
                    permission,
                    pending: Composer {
                        context: held,
                        kinds,
                        plans,
                        remaining: rest,
                        index: at,
                        entry: step,
                        starts,
                    },
                };
            }
        }
    }
}

impl Composer {
    /// Resumes the composition with the I/O policy on which the driver has
    /// allowed the descriptor that was asked for: the walk goes on behind that
    /// permission, with the policy that the driver hands back.
    pub fn resume(self, policy: extrasafe::builtins::systemio::SystemIO) -> (reached: Composition)
        ensures
            reached.agrees(
                walk(
                    self.context(),
                    Some(EnginePolicy::Io(policy)),
                    self.starts(),
                    self.target(),
                    self.index(),
                    self.entry() + 1,
                ),
                self.kinds(),
                self.target(),
                self.starts(),
            ),
    {
        proof {
            use_type_invariant(&self);
        }
        let length = self.plans[self.index].len();
        assert(steps(self.plans@)[self.index as int] == self.plans@[self.index as int]@);
        let current = Policy::from_io(policy);
        run(
            self.context,
            self.kinds,
            self.plans,
            self.remaining,
            self.index,
            self.entry + 1,
            Some(current),
            self.starts,
        )
    }
}

/// Every permission of a rule set belongs to the rule set's category.
pub proof fn lemma_permissions_fit(rules: RuleSetView)
    requires
        rules.wf(),
    ensures
        forall|j: int|
            0 <= j < rules.permissions().len() ==> (#[trigger] rules.permissions()[j]).spec_category()
                == rules.kind,
{
    lemma_flags_upto(rules.kind, rules.flags, rules.kind.spec_flag_count());
}

impl DataRuleSet {
    /// Builds the policy of this rule set on `start` and merges it into
    /// `context`: the rule set's permissions are applied to `start` in their
    /// order.
    ///
    /// With descriptors in the rule set the composition comes back waiting for
    /// the first of them. If the engine rejects the policy, the error names
    /// the category.
    pub fn enable_from(&self, context: Context, start: Policy) -> (reached: Composition)
        requires
            start.kind() == self@.kind,
        ensures
            reached.agrees(
                walk(
                    context.engine(),
                    None,
                    seq![start.engine()],
                    seq![self@.permissions()],
                    0,
                    0,
                ),
                seq![self@.kind],
                seq![self@.permissions()],
                seq![start.engine()],
            ),
    {
        let _flags = self.flags();
        let mut kinds: Vec<CategoryKind> = Vec::new();
        kinds.push(self.kind());
        let mut plans: Vec<Vec<Permission>> = Vec::new();
        plans.push(self.permissions());
        let ghost starts = seq![start.engine()];
        let mut remaining: Vec<Policy> = Vec::new();
        remaining.push(start);
        proof {
            lemma_permissions_fit(self@);
            assert(kinds@ =~= seq![self@.kind]);
            assert(steps(plans@) =~= seq![self@.permissions()]);
            assert(engines(remaining@) =~= starts.skip(0));
        }
        run(context, kinds, plans, remaining, 0, 0, None, Ghost(starts))
    }

    /// Builds the policy of this rule set and merges it into `context`: from
    /// the engine's most restrictive policy of the category, with the rule
    /// set's permissions applied in their order.
    ///
    /// With descriptors in the rule set the composition comes back waiting for
    /// the first of them. If the engine rejects the policy, the error names
    /// the category.
    pub fn enable_to(&self, context: Context) -> (reached: Composition)
        ensures
            exists|start: EnginePolicy| #[trigger]
                reached.enabled_afresh(context.engine(), start, self@),
    {
        let start = Policy::start(self.kind());
        let ghost witness = start.engine();
        let reached = self.enable_from(context, start);
        assert(reached.enabled_afresh(context.engine(), witness, self@));
        reached
    }
}

/// The rule sets that have been enabled, in the order in which they were
/// enabled. The same category may occur more than once; each rule set is
/// merged on its own.
#[derive(Debug)]
pub struct PySafetyContext {
    rules: Vec<DataRuleSet>,
}

impl View for PySafetyContext {
    type V = Seq<RuleSetView>;

    closed spec fn view(&self) -> Seq<RuleSetView> {
        Seq::new(self.rules@.len(), |i: int| self.rules@[i]@)
    }
}

/// A walk over the rule sets of a context, in their order.
#[derive(Debug)]
pub struct Iter<'a> {
    lst: &'a PySafetyContext,
    idx: usize,
}

impl<'a> Iter<'a> {
    /// The rule sets that are walked over.
    pub closed spec fn rules(self) -> Seq<RuleSetView> {
        self.lst@
    }

    /// The number of rule sets that the walk has handed out, or, past the end,
    /// where it was started.
    pub closed spec fn position(self) -> nat {
        self.idx as nat
    }

    /// The walk itself.
    pub fn __iter__(self) -> (walk: Iter<'a>)
        ensures
            walk == self,
    {
        self
    }

    /// The next rule set, or `None` when the walk is through. Only a rule set
    /// that is handed out moves the walk on.
    pub fn __next__(&mut self) -> (next: Option<&'a DataRuleSet>)
        ensures
            final(self).rules() == old(self).rules(),
            old(self).position() < old(self).rules().len() ==> next is Some && next->Some_0@
                == old(self).rules()[old(self).position() as int] && final(self).position()
                == old(self).position() + 1,
            old(self).position() >= old(self).rules().len() ==> next is None
                && final(self).position() == old(self).position(),
    {
        let count = self.lst.__len__();
        if self.idx < count {
            let rules = self.lst.get(self.idx);
            self.idx = self.idx + 1;
            Some(rules)
        } else {
            None
        }
    }

    /// The number of rule sets that the walk has handed out.
    pub fn __index__(&self) -> (position: usize)
        ensures
            position == self.position(),
    {
        self.idx
    }

    /// The number of rule sets that are left; none past the end.
    pub fn __len__(&self) -> (left: usize)
        ensures
            left == if self.position() <= self.rules().len() {
                self.rules().len() - self.position()
            } else {
                0
            },
    {
        let count = self.lst.__len__();
        if self.idx <= count {
            count - self.idx
        } else {
            0
        }
    }
}

impl PySafetyContext {
    /// The context without rule sets.
    pub fn new() -> (context: PySafetyContext)
        ensures
            context@ == Seq::<RuleSetView>::empty(),
    {
        let context = PySafetyContext { rules: Vec::new() };
        assert(context@ =~= Seq::<RuleSetView>::empty());
        context
    }

    /// Adds a copy of `policy` at the end. What is done to `policy` later does
    /// not reach the copy.
    pub fn enable(self, policy: &DataRuleSet) -> (context: PySafetyContext)
        ensures
            context@ == self@.push(policy@),
    {
        let mut rules = self.rules;
        rules.push(policy.clone());
        let context = PySafetyContext { rules };
        assert(context@ =~= self@.push(policy@));
        context
    }

    /// The number of rule sets.
    pub fn __len__(&self) -> (count: usize)
        ensures
            count == self@.len(),
    {
        self.rules.len()
    }

    /// Whether the context holds a rule set.
    pub fn __bool__(&self) -> (filled: bool)
        ensures
            filled == (self@.len() > 0),
    {
        self.rules.len() != 0
    }

    /// A walk over the rule sets, from the first on.
    pub fn __iter__(&self) -> (walk: Iter<'_>)
        ensures
            walk.rules() == self@,
            walk.position() == 0,
    {
        Iter { lst: self, idx: 0 }
    }

    /// The rule set at `position`.
    pub fn get(&self, position: usize) -> (rules: &DataRuleSet)
        requires
            position < self@.len(),
        ensures
            rules@ == self@[position as int],
    {
        &self.rules[position]
    }

    /// Composes the rule sets, from first to last, into `context`, with the
    /// policy of each rule set built on the policy that `starts` holds for it.
    ///
    /// The composition stops at the first permission for a descriptor, or at
    /// the first rule set that the engine rejects; the rule sets after that
    /// one are not tried.
    pub fn to_context_from(&self, context: Context, starts: Vec<Policy>) -> (reached: Composition)
        requires
            starts_fit(context_kinds(self@), engines(starts@)),
        ensures
            reached.agrees(
                walk(context.engine(), None, engines(starts@), context_plan(self@), 0, 0),
                context_kinds(self@),
                context_plan(self@),
                engines(starts@),
            ),
    {
        let mut kinds: Vec<CategoryKind> = Vec::new();
        let mut plans: Vec<Vec<Permission>> = Vec::new();
        let mut at: usize = 0;
        while at < self.rules.len()
            invariant
                at <= self.rules@.len(),
                kinds@ == context_kinds(self@).take(at as int),
                steps(plans@) == context_plan(self@).take(at as int),
                plans_fit(kinds@, steps(plans@)),
            decreases self.rules@.len() - at,
        {
            let rules = &self.rules[at];
            let _flags = rules.flags();
            let ghost before = steps(plans@);
            proof {
                lemma_permissions_fit(rules@);
            }
            kinds.push(rules.kind());
            plans.push(rules.permissions());
            proof {
                assert(kinds@ =~= context_kinds(self@).take(at + 1));
                assert(steps(plans@) =~= before.push(rules@.permissions()));
                assert(steps(plans@) =~= context_plan(self@).take(at + 1));
            }
            at = at + 1;
        }
        proof {
            assert(kinds@ =~= context_kinds(self@));
            assert(steps(plans@) =~= context_plan(self@));
            assert(engines(starts@) =~= engines(starts@).skip(0));
        }
        let ghost all = engines(starts@);
        run(context, kinds, plans, starts, 0, 0, None, Ghost(all))
    }

    /// Composes the rule sets, from first to last, into a context of the
    /// engine, starting from a context that holds no rule and building each
    /// policy on the engine's most restrictive policy of its category. The
    /// context can be composed again at any time; every composition starts
    /// afresh.
    ///
    /// The composition stops at the first permission for a descriptor, or at
    /// the first rule set that the engine rejects; the rule sets after that
    /// one are not tried. A context without rule sets always composes.
    pub fn to_context(&self) -> (reached: Composition)
        ensures
            exists|context: extrasafe::SafetyContext, starts: Seq<EnginePolicy>| #[trigger]
                reached.composed_afresh(
                    context,
                    starts,
                    context_kinds(self@),
                    context_plan(self@),
                ),
            self@.len() == 0 ==> reached is Complete,
    {
        let mut starts: Vec<Policy> = Vec::new();
        let mut at: usize = 0;
        while at < self.rules.len()
            invariant
                at <= self.rules@.len(),
                starts_fit(context_kinds(self@).take(at as int), engines(starts@)),
                starts_fresh(engines(starts@)),
            decreases self.rules@.len() - at,
        {
            let start = Policy::start(self.rules[at].kind());
            let ghost before = engines(starts@);
            starts.push(start);
            proof {
                assert(engines(starts@) =~= before.push(start.engine()));
                assert(context_kinds(self@).take(at + 1) =~= context_kinds(self@).take(
                    at as int,
                ).push(self@[at as int].kind));
            }
            at = at + 1;
        }
        assert(context_kinds(self@).take(at as int) =~= context_kinds(self@));
        let context = Context::new();
        let ghost fresh = context.engine();
        let ghost built_on = engines(starts@);
        let reached = self.to_context_from(context, starts);
        assert(reached.composed_afresh(
            fresh,
            built_on,
            context_kinds(self@),
            context_plan(self@),
        ));
        reached
    }
}

/// Composition keeps the order of the rule sets and does not depend on how
/// they are grouped: the plan of two runs of rule sets, one after the other,
/// is the plan of the first run followed by the plan of the second.
pub proof fn lemma_plan_of_concatenation(first: Seq<RuleSetView>, second: Seq<RuleSetView>)
    ensures
        context_plan(first + second) == context_plan(first) + context_plan(second),
        context_kinds(first + second) == context_kinds(first) + context_kinds(second),
{
    assert(context_plan(first + second) =~= context_plan(first) + context_plan(second));
    assert(context_kinds(first + second) =~= context_kinds(first) + context_kinds(second));
}

/// Enabling one more rule set adds its permissions at the end of the plan and
/// leaves the plan of the rule sets before it as it was.
pub proof fn lemma_plan_of_enable(rules: Seq<RuleSetView>, policy: RuleSetView)
    ensures
        context_plan(rules.push(policy)) == context_plan(rules).push(policy.permissions()),
        context_plan(seq![policy]) == seq![policy.permissions()],
{
    assert(context_plan(rules.push(policy)) =~= context_plan(rules).push(policy.permissions()));
    assert(context_plan(seq![policy]) =~= seq![policy.permissions()]);
}

/// A walk with the places of its plans counted `by` further on.
pub open spec fn shifted(reached: Walk, by: nat) -> Walk {
    match reached {
        Walk::Complete { context } => Walk::Complete { context },
        Walk::Whitelist { index, entry, context, policy } => Walk::Whitelist {
            index: index + by,
            entry,
            context,
            policy,
        },
        Walk::Failed { index, context, policy } => Walk::Failed { index: index + by, context, policy },
    }
}

/// Without plans the walk is through at once, with the context as it was.
pub proof fn lemma_walk_of_nothing(context: extrasafe::SafetyContext, starts: Seq<EnginePolicy>)
    ensures
        walk(context, None, starts, Seq::<Seq<Permission>>::empty(), 0, 0) == (Walk::Complete {
            context,
        }),
{
}

/// A walk fails only where the engine rejects the policy that stands at the
/// end of a plan, for the context merged up to there, and never at a plan
/// before the one where the walk starts. It waits only at a permission for a
/// descriptor.
pub proof fn lemma_failure_is_rejection(
    context: extrasafe::SafetyContext,
    policy: Option<EnginePolicy>,
    starts: Seq<EnginePolicy>,
    plans: Seq<Seq<Permission>>,
    index: nat,
    entry: nat,
)
    ensures
        match walk(context, policy, starts, plans, index, entry) {
            Walk::Failed { index: at, context: before, policy: rejected } => {
                &&& index <= at < plans.len()
                &&& enabled(before, rejected) is None
            },
            Walk::Whitelist { index: at, entry: place, .. } => {
                &&& index <= at < plans.len()
                &&& place < plans[at as int].len()
                &&& !is_flag(plans[at as int][place as int])
                &&& at == index ==> entry <= place
            },
            Walk::Complete { .. } => true,
        },
    decreases plans.len() - index, plans[index as int].len() - entry,
{
    if index < plans.len() {
        let current = match policy {
            Some(started) => started,
            None => starts[index as int],
        };
        if entry >= plans[index as int].len() {
            match enabled(context, current) {
                Some(merged) => {
                    lemma_failure_is_rejection(merged, None, starts, plans, index + 1, 0);
                },
                None => {},
            }
        } else if is_flag(plans[index as int][entry as int]) {
            let granted = after_grant(current, plans[index as int][entry as int]);
            lemma_failure_is_rejection(context, Some(granted), starts, plans, index, entry + 1);
        }
    }
}

/// The walk over one plan whose first `flags` permissions are flags: they are
/// applied, in their order, to the policy that the plan starts from. If the
/// plan ends there, that policy is what the engine is given to merge, and the
/// walk goes on with the next plan or fails here. If a permission for a
/// descriptor follows, that policy is what the driver is handed.
pub proof fn lemma_flags_come_first(
    context: extrasafe::SafetyContext,
    starts: Seq<EnginePolicy>,
    plans: Seq<Seq<Permission>>,
    index: nat,
    flags: nat,
)
    requires
        index < plans.len(),
        flags <= plans[index as int].len(),
        forall|j: int| 0 <= j < flags ==> is_flag(#[trigger] plans[index as int][j]),
        flags < plans[index as int].len() ==> !is_flag(plans[index as int][flags as int]),
    ensures
        ({
            let built = after_grants(starts[index as int], plans[index as int].take(flags as int));
            walk(context, None, starts, plans, index, 0) == if flags < plans[index as int].len() {
                Walk::Whitelist { index, entry: flags, context, policy: built }
            } else {
                match enabled(context, built) {
                    Some(merged) => walk(merged, None, starts, plans, index + 1, 0),
                    None => Walk::Failed { index, context, policy: built },
                }
            }
        }),
{
    let origin = starts[index as int];
    let plan = plans[index as int];
    assert(plan.take(0) =~= Seq::<Permission>::empty());
    assert(walk(context, None, starts, plans, index, 0) == walk(
        context,
        Some(origin),
        starts,
        plans,
        index,
        0,
    ));
    lemma_flags_from(context, origin, starts, plans, index, flags, 0);
}

/// The step of `lemma_flags_come_first`: the walk from the place `entry`, with
/// the flags before it applied.
proof fn lemma_flags_from(
    context: extrasafe::SafetyContext,
    origin: EnginePolicy,
    starts: Seq<EnginePolicy>,
    plans: Seq<Seq<Permission>>,
    index: nat,
    flags: nat,
    entry: nat,
)
    requires
        index < plans.len(),
        entry <= flags <= plans[index as int].len(),
        forall|j: int| 0 <= j < flags ==> is_flag(#[trigger] plans[index as int][j]),
        flags < plans[index as int].len() ==> !is_flag(plans[index as int][flags as int]),
    ensures
        ({
            let plan = plans[index as int];
            let built = after_grants(origin, plan.take(flags as int));
            walk(
                context,
                Some(after_grants(origin, plan.take(entry as int))),
                starts,
                plans,
                index,
                entry,
            ) == if flags < plan.len() {
                Walk::Whitelist { index, entry: flags, context, policy: built }
            } else {
                match enabled(context, built) {
                    Some(merged) => walk(merged, None, starts, plans, index + 1, 0),
                    None => Walk::Failed { index, context, policy: built },
                }
            }
        }),
    decreases flags - entry,
{
    let plan = plans[index as int];
    if entry < flags {
        let longer = plan.take((entry + 1) as int);
        assert(longer.drop_last() =~= plan.take(entry as int));
        assert(longer.last() == plan[entry as int]);
        assert(after_grants(origin, longer) == after_grant(
            after_grants(origin, plan.take(entry as int)),
            plan[entry as int],
        ));
        lemma_flags_from(context, origin, starts, plans, index, flags, entry + 1);
    }
}

/// The walk over plans that follow other plans is the walk over them alone,
/// with the places counted on.
pub proof fn lemma_walk_behind(
    context: extrasafe::SafetyContext,
    policy: Option<EnginePolicy>,
    starts_before: Seq<EnginePolicy>,
    plans_before: Seq<Seq<Permission>>,
    starts: Seq<EnginePolicy>,
    plans: Seq<Seq<Permission>>,
    index: nat,
    entry: nat,
)
    requires
        starts_before.len() == plans_before.len(),
        starts.len() == plans.len(),
    ensures
        walk(
            context,
            policy,
            starts_before + starts,
            plans_before + plans,
            plans_before.len() + index,
            entry,
        ) == shifted(walk(context, policy, starts, plans, index, entry), plans_before.len()),
    decreases plans.len() - index, plans[index as int].len() - entry,
{
    let all_starts = starts_before + starts;
    let all_plans = plans_before + plans;
    let by = plans_before.len();
    if index < plans.len() {
        assert(all_plans[(by + index) as int] == plans[index as int]);
        assert(all_starts[(by + index) as int] == starts[index as int]);
        let current = match policy {
            Some(started) => started,
            None => starts[index as int],
        };
        if entry >= plans[index as int].len() {
            match enabled(context, current) {
                Some(merged) => {
                    lemma_walk_behind(
                        merged,
                        None,
                        starts_before,
                        plans_before,
                        starts,
                        plans,
                        index + 1,
                        0,
                    );
                },
                None => {},
            }
        } else if is_flag(plans[index as int][entry as int]) {
            lemma_walk_behind(
                context,
                Some(after_grant(current, plans[index as int][entry as int])),
                starts_before,
                plans_before,
                starts,
                plans,
                index,
                entry + 1,
            );
        }
    }
}

/// The walk over plans that other plans follow is the walk over them alone,
/// as long as it does not complete; where it completes, the walk goes on with
/// the plans that follow, from the context reached.
pub proof fn lemma_walk_ahead(
    context: extrasafe::SafetyContext,
    policy: Option<EnginePolicy>,
    starts: Seq<EnginePolicy>,
    plans: Seq<Seq<Permission>>,
    starts_behind: Seq<EnginePolicy>,
    plans_behind: Seq<Seq<Permission>>,
    index: nat,
    entry: nat,
)
    requires
        starts.len() == plans.len(),
        index <= plans.len(),
        index < plans.len() || (policy is None && entry == 0),
    ensures
        walk(context, policy, starts + starts_behind, plans + plans_behind, index, entry)
            == match walk(context, policy, starts, plans, index, entry) {
            Walk::Complete { context: reached } => walk(
                reached,
                None,
                starts + starts_behind,
                plans + plans_behind,
                plans.len(),
                0,
            ),
            other => other,
        },
    decreases plans.len() - index, plans[index as int].len() - entry,
{
    let all_starts = starts + starts_behind;
    let all_plans = plans + plans_behind;
    if index < plans.len() {
        assert(all_plans[index as int] == plans[index as int]);
        assert(all_starts[index as int] == starts[index as int]);
        let current = match policy {
            Some(started) => started,
            None => starts[index as int],
        };
        if entry >= plans[index as int].len() {
            match enabled(context, current) {
                Some(merged) => {
                    lemma_walk_ahead(
                        merged,
                        None,
                        starts,
                        plans,
                        starts_behind,
                        plans_behind,
                        index + 1,
                        0,
                    );
                },
                None => {},
            }
        } else if is_flag(plans[index as int][entry as int]) {
            lemma_walk_ahead(
                context,
                Some(after_grant(current, plans[index as int][entry as int])),
                starts,
                plans,
                starts_behind,
                plans_behind,
                index,
                entry + 1,
            );
        }
    }
}

/// Where a sequence of rule sets is split does not change what composing it
/// comes to: composing the whole is composing the first part and then, from
/// the context reached, the second. Where the first part does not complete,
/// the whole stops where the first part stops.
pub proof fn lemma_composition_splits(
    context: extrasafe::SafetyContext,
    starts_first: Seq<EnginePolicy>,
    first: Seq<RuleSetView>,
    starts_second: Seq<EnginePolicy>,
    second: Seq<RuleSetView>,
)
    requires
        starts_first.len() == first.len(),
        starts_second.len() == second.len(),
    ensures
        walk(context, None, starts_first + starts_second, context_plan(first + second), 0, 0)
            == match walk(context, None, starts_first, context_plan(first), 0, 0) {
            Walk::Complete { context: reached } => shifted(
                walk(reached, None, starts_second, context_plan(second), 0, 0),
                first.len(),
            ),
            other => other,
        },
{
    lemma_plan_of_concatenation(first, second);
    let plans = context_plan(first);
    let plans_behind = context_plan(second);
    lemma_walk_ahead(context, None, starts_first, plans, starts_second, plans_behind, 0, 0);
    match walk(context, None, starts_first, plans, 0, 0) {
        Walk::Complete { context: reached } => {
            lemma_walk_behind(
                reached,
                None,
                starts_first,
                plans,
                starts_second,
                plans_behind,
                0,
                0,
            );
        },
        _ => {},
    }
}

/// Composing two rule sets is folding them one by one: enabling the first on
/// the context, and the second on the context that comes of it.
pub proof fn lemma_fold_is_composition(
    context: extrasafe::SafetyContext,
    start_first: EnginePolicy,
    first: RuleSetView,
    start_second: EnginePolicy,
    second: RuleSetView,
)
    ensures
        walk(
            context,
            None,
            seq![start_first, start_second],
            context_plan(seq![first, second]),
            0,
            0,
        ) == match walk(context, None, seq![start_first], seq![first.permissions()], 0, 0) {
            Walk::Complete { context: reached } => shifted(
                walk(reached, None, seq![start_second], seq![second.permissions()], 0, 0),
                1,
            ),
            other => other,
        },
{
    assert(seq![first] + seq![second] =~= seq![first, second]);
    assert(seq![start_first] + seq![start_second] =~= seq![start_first, start_second]);
    assert(context_plan(seq![first]) =~= seq![first.permissions()]);
    assert(context_plan(seq![second]) =~= seq![second.permissions()]);
    lemma_composition_splits(
        context,
        seq![start_first],
        seq![first],
        seq![start_second],
        seq![second],
    );
}

} // verus!
