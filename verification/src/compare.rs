//! Rule sets as values: their order, their equality and their hash.
//!
//! All three go by what a rule set is: its category first, then its flags,
//! then the descriptors to read, then the descriptors to write. How a rule set
//! was built does not enter into them.

use crate::engine::{Context, EnginePolicy};
use crate::rule_sets::{DataRuleSet, RuleSetView};
use crate::safety_ctx::Composition;
use std::cmp::Ordering;
use std::collections::hash_map::DefaultHasher;
use std::hash::Hasher;
use vstd::prelude::*;
use vstd::std_specs::hash::DefaultHasherAdditionalSpecFns;

verus! {

/// How one value stands to another.
#[derive(Clone, Copy, Debug, PartialEq, Eq, Structural)]
pub enum Order {
    Less,
    Equal,
    Greater,
}

/// A comparison that a caller can ask for.
#[derive(Clone, Copy, Debug, PartialEq, Eq, Structural)]
pub enum CompareOp {
    Lt,
    Le,
    Eq,
    Ne,
    Gt,
    Ge,
}

/// The order of two numbers.
pub open spec fn order_numbers(left: int, right: int) -> Order {
    if left < right {
        Order::Less
    } else if left == right {
        Order::Equal
    } else {
        Order::Greater
    }
}

/// The order of two lists: by the first place at which they differ, a list
/// coming before every list that continues it.
pub open spec fn order_lists(left: Seq<i32>, right: Seq<i32>) -> Order
    decreases left.len(),
{
    if left.len() == 0 {
        if right.len() == 0 {
            Order::Equal
        } else {
            Order::Less
        }
    } else if right.len() == 0 {
        Order::Greater
    } else if left[0] != right[0] {
        order_numbers(left[0] as int, right[0] as int)
    } else {
        order_lists(left.drop_first(), right.drop_first())
    }
}

/// The order of two rule sets: by category, then by flags, then by the
/// descriptors to read, then by the descriptors to write.
pub open spec fn order_rule_sets(left: RuleSetView, right: RuleSetView) -> Order {
    if left.kind != right.kind {
        order_numbers(left.kind.spec_rank() as int, right.kind.spec_rank() as int)
    } else if left.flags != right.flags {
        order_numbers(left.flags as int, right.flags as int)
    } else if left.read_fds != right.read_fds {
        order_lists(left.read_fds, right.read_fds)
    } else {
        order_lists(left.write_fds, right.write_fds)
    }
}

/// What a comparison says of two values that stand in `order`.
pub open spec fn holds(op: CompareOp, order: Order) -> bool {
    match op {
        CompareOp::Lt => order is Less,
        CompareOp::Le => !(order is Greater),
        CompareOp::Eq => order is Equal,
        CompareOp::Ne => !(order is Equal),
        CompareOp::Gt => order is Greater,
        CompareOp::Ge => !(order is Less),
    }
}

/// Two lists are in the order `Equal` exactly when they are the same list, and
/// turning a pair round turns its order round.
pub proof fn lemma_order_lists(left: Seq<i32>, right: Seq<i32>)
    ensures
        order_lists(left, right) is Equal <==> left == right,
        order_lists(left, right) is Less <==> order_lists(right, left) is Greater,
    decreases left.len(),
{
    if left.len() > 0 && right.len() > 0 {
        lemma_order_lists(left.drop_first(), right.drop_first());
        if left[0] == right[0] {
            if left.drop_first() == right.drop_first() {
                assert(left =~= seq![left[0]] + left.drop_first());
                assert(right =~= seq![right[0]] + right.drop_first());
            }
        }
    } else if left.len() == 0 && right.len() == 0 {
        assert(left =~= right);
    }
}

/// The order of lists is transitive.
pub proof fn lemma_order_lists_transitive(first: Seq<i32>, second: Seq<i32>, third: Seq<i32>)
    requires
        order_lists(first, second) is Less,
        order_lists(second, third) is Less,
    ensures
        order_lists(first, third) is Less,
    decreases first.len(),
{
    if first.len() > 0 && second.len() > 0 && third.len() > 0 {
        if first[0] == second[0] && second[0] == third[0] {
            lemma_order_lists_transitive(
                first.drop_first(),
                second.drop_first(),
                third.drop_first(),
            );
        }
    }
}

/// Rule sets are in the order `Equal` exactly when they are the same value, and
/// turning a pair round turns its order round.
pub proof fn lemma_order_rule_sets(left: RuleSetView, right: RuleSetView)
    ensures
        order_rule_sets(left, right) is Equal <==> left == right,
        order_rule_sets(left, right) is Less <==> order_rule_sets(right, left) is Greater,
{
    lemma_order_lists(left.read_fds, right.read_fds);
    lemma_order_lists(left.write_fds, right.write_fds);
}

/// The order of rule sets is transitive.
pub proof fn lemma_order_rule_sets_transitive(
    first: RuleSetView,
    second: RuleSetView,
    third: RuleSetView,
)
    requires
        order_rule_sets(first, second) is Less,
        order_rule_sets(second, third) is Less,
    ensures
        order_rule_sets(first, third) is Less,
{
    lemma_order_lists(first.read_fds, second.read_fds);
    lemma_order_lists(second.read_fds, third.read_fds);
    lemma_order_lists(first.read_fds, third.read_fds);
    lemma_order_lists(first.write_fds, second.write_fds);
    lemma_order_lists(second.write_fds, third.write_fds);
    lemma_order_lists(first.write_fds, third.write_fds);
    if first.kind == second.kind && second.kind == third.kind && first.flags == second.flags
        && second.flags == third.flags {
        if first.read_fds == second.read_fds {
            if second.read_fds == third.read_fds {
                lemma_order_lists_transitive(first.write_fds, second.write_fds, third.write_fds);
            }
        } else if second.read_fds != third.read_fds {
            lemma_order_lists_transitive(first.read_fds, second.read_fds, third.read_fds);
        }
    }
}

/// Rule sets that are the same value, however each was built, are equal
/// under every comparison and are hashed from the same input.
pub proof fn lemma_same_value_same_answers(left: RuleSetView, right: RuleSetView)
    requires
        left == right,
    ensures
        order_rule_sets(left, right) is Equal,
        holds(CompareOp::Eq, order_rule_sets(left, right)),
        holds(CompareOp::Le, order_rule_sets(left, right)),
        holds(CompareOp::Ge, order_rule_sets(left, right)),
        !holds(CompareOp::Ne, order_rule_sets(left, right)),
        !holds(CompareOp::Lt, order_rule_sets(left, right)),
        !holds(CompareOp::Gt, order_rule_sets(left, right)),
        hash_input(left) == hash_input(right),
{
    lemma_order_rule_sets(left, right);
}

/// The order of two numbers.
fn compare_numbers(left: i32, right: i32) -> (order: Order)
    ensures
        order == order_numbers(left as int, right as int),
{
    if left < right {
        Order::Less
    } else if left == right {
        Order::Equal
    } else {
        Order::Greater
    }
}

/// The order of the descriptor lists of two rule sets, to read or to write.
fn compare_descriptors(left: &DataRuleSet, right: &DataRuleSet, writing: bool) -> (order: Order)
    ensures
        order == if writing {
            order_lists(left@.write_fds, right@.write_fds)
        } else {
            order_lists(left@.read_fds, right@.read_fds)
        },
{
    let ghost whole_left = if writing {
        left@.write_fds
    } else {
        left@.read_fds
    };
    let ghost whole_right = if writing {
        right@.write_fds
    } else {
        right@.read_fds
    };
    let left_count = if writing {
        left.write_count()
    } else {
        left.read_count()
    };
    let right_count = if writing {
        right.write_count()
    } else {
        right.read_count()
    };
    let mut at: usize = 0;
    assert(whole_left.subrange(0, whole_left.len() as int) =~= whole_left);
    assert(whole_right.subrange(0, whole_right.len() as int) =~= whole_right);
    loop
        invariant
            left_count == whole_left.len(),
            right_count == whole_right.len(),
            whole_left == if writing {
                left@.write_fds
            } else {
                left@.read_fds
            },
            whole_right == if writing {
                right@.write_fds
            } else {
                right@.read_fds
            },
            at <= left_count,
            at <= right_count,
            order_lists(whole_left, whole_right) == order_lists(
                whole_left.subrange(at as int, whole_left.len() as int),
                whole_right.subrange(at as int, whole_right.len() as int),
            ),
        decreases left_count - at,
    {
        let ghost rest_left = whole_left.subrange(at as int, whole_left.len() as int);
        let ghost rest_right = whole_right.subrange(at as int, whole_right.len() as int);
        if at == left_count {
            if at == right_count {
                return Order::Equal;
            }
            return Order::Less;
        }
        if at == right_count {
            return Order::Greater;
        }
        let mine = if writing {
            left.write_descriptor(at)
        } else {
            left.read_descriptor(at)
        };
        let theirs = if writing {
            right.write_descriptor(at)
        } else {
            right.read_descriptor(at)
        };
        assert(rest_left[0] == mine && rest_right[0] == theirs);
        if mine != theirs {
            return compare_numbers(mine, theirs);
        }
        assert(rest_left.drop_first() =~= whole_left.subrange(
            at + 1,
            whole_left.len() as int,
        ));
        assert(rest_right.drop_first() =~= whole_right.subrange(
            at + 1,
            whole_right.len() as int,
        ));
        at = at + 1;
    }
}

/// The two bytes of a number, the lower one first.
pub open spec fn bytes_of_flags(flags: u16) -> Seq<u8> {
    seq![(flags % 256) as u8, (flags / 256) as u8]
}

/// The four bytes of a descriptor, the lowest one first.
pub open spec fn bytes_of_descriptor(fd: i32) -> Seq<u8> {
    seq![
        (fd % 256) as u8,
        ((fd / 256) % 256) as u8,
        ((fd / 65536) % 256) as u8,
        ((fd / 16777216) % 256) as u8,
    ]
}

/// The eight bytes of a length, the lowest one first.
pub open spec fn bytes_of_length(length: nat) -> Seq<u8> {
    seq![
        (length % 256) as u8,
        ((length / 0x100) % 256) as u8,
        ((length / 0x1_0000) % 256) as u8,
        ((length / 0x100_0000) % 256) as u8,
        ((length / 0x1_0000_0000) % 256) as u8,
        ((length / 0x100_0000_0000) % 256) as u8,
        ((length / 0x1_0000_0000_0000) % 256) as u8,
        ((length / 0x100_0000_0000_0000) % 256) as u8,
    ]
}

/// The bytes of the descriptors of a list, one descriptor after the other.
pub open spec fn bytes_of_descriptors(list: Seq<i32>) -> Seq<u8>
    decreases list.len(),
{
    if list.len() == 0 {
        Seq::<u8>::empty()
    } else {
        bytes_of_descriptors(list.drop_last()) + bytes_of_descriptor(list.last())
    }
}

/// The bytes of a list: its length, then its descriptors. With the length in
/// front, where one list ends and the next begins can be told from the bytes.
pub open spec fn bytes_of_list(list: Seq<i32>) -> Seq<u8> {
    bytes_of_length(list.len()) + bytes_of_descriptors(list)
}

/// What is fed to the hasher for a rule set, in four writes: the rank of the
/// category, the flags, the list of descriptors to read, the list of
/// descriptors to write.
pub open spec fn hash_input(rules: RuleSetView) -> Seq<Seq<u8>> {
    seq![
        seq![rules.kind.spec_rank()],
        bytes_of_flags(rules.flags),
        bytes_of_list(rules.read_fds),
        bytes_of_list(rules.write_fds),
    ]
}

/// The bytes of the descriptors to read, or to write, of a rule set.
fn descriptor_bytes(rules: &DataRuleSet, writing: bool) -> (bytes: Vec<u8>)
    ensures
        bytes@ == bytes_of_list(
            if writing {
                rules@.write_fds
            } else {
                rules@.read_fds
            },
        ),
{
    let ghost whole = if writing {
        rules@.write_fds
    } else {
        rules@.read_fds
    };
    let _flags = rules.flags();
    let count = if writing {
        rules.write_count()
    } else {
        rules.read_count()
    };
    let wide = count as u64;
    let mut bytes: Vec<u8> = Vec::new();
    bytes.push((wide % 256) as u8);
    bytes.push(((wide / 0x100) % 256) as u8);
    bytes.push(((wide / 0x1_0000) % 256) as u8);
    bytes.push(((wide / 0x100_0000) % 256) as u8);
    bytes.push(((wide / 0x1_0000_0000) % 256) as u8);
    bytes.push(((wide / 0x100_0000_0000) % 256) as u8);
    bytes.push(((wide / 0x1_0000_0000_0000) % 256) as u8);
    bytes.push(((wide / 0x100_0000_0000_0000) % 256) as u8);
    assert(bytes@ =~= bytes_of_length(whole.len()));
    assert(whole.subrange(0, 0) =~= Seq::<i32>::empty());
    assert(bytes@ =~= bytes_of_length(whole.len()) + bytes_of_descriptors(whole.subrange(0, 0)));
    let mut at: usize = 0;
    while at < count
        invariant
            count == whole.len(),
            at <= count,
            rules@.wf(),
            whole == if writing {
                rules@.write_fds
            } else {
                rules@.read_fds
            },
            bytes@ == bytes_of_length(whole.len()) + bytes_of_descriptors(
                whole.subrange(0, at as int),
            ),
        decreases count - at,
    {
        let fd = if writing {
            rules.write_descriptor(at)
        } else {
            rules.read_descriptor(at)
        };
        assert(fd >= 0);
        bytes.push((fd % 256) as u8);
        bytes.push(((fd / 256) % 256) as u8);
        bytes.push(((fd / 65536) % 256) as u8);
        bytes.push(((fd / 16777216) % 256) as u8);
        proof {
            let longer = whole.subrange(0, at + 1);
            assert(longer.drop_last() =~= whole.subrange(0, at as int));
            assert(longer.last() == fd);
            assert(bytes@ =~= bytes_of_length(whole.len()) + (bytes_of_descriptors(
                longer.drop_last(),
            ) + bytes_of_descriptor(fd)));
        }
        at = at + 1;
    }
    assert(whole.subrange(0, count as int) =~= whole);
    bytes
}

impl DataRuleSet {
    /// How this rule set stands to `other`.
    pub fn compare(&self, other: &DataRuleSet) -> (order: Order)
        ensures
            order == order_rule_sets(self@, other@),
    {
        let mine = self.kind().rank();
        let theirs = other.kind().rank();
        if mine != theirs {
            return if mine < theirs {
                Order::Less
            } else {
                Order::Greater
            };
        }
        let mine = self.flags();
        let theirs = other.flags();
        if mine != theirs {
            return if mine < theirs {
                Order::Less
            } else {
                Order::Greater
            };
        }
        let reads = compare_descriptors(self, other, false);
        proof {
            lemma_order_lists(self@.read_fds, other@.read_fds);
        }
        match reads {
            Order::Equal => compare_descriptors(self, other, true),
            _ => reads,
        }
    }

    /// Whether this rule set and `other` are the same value.
    pub fn same(&self, other: &DataRuleSet) -> (same: bool)
        ensures
            same == (self@ == other@),
    {
        proof {
            lemma_order_rule_sets(self@, other@);
        }
        match self.compare(other) {
            Order::Equal => true,
            _ => false,
        }
    }
}

impl PartialEq for DataRuleSet {
    /// `==` on rule sets: whether they are the same value.
    fn eq(&self, other: &DataRuleSet) -> (same: bool) {
        self.same(other)
    }
}

impl vstd::std_specs::cmp::PartialEqSpecImpl for DataRuleSet {
    open spec fn obeys_eq_spec() -> bool {
        true
    }

    open spec fn eq_spec(&self, other: &DataRuleSet) -> bool {
        self@ == other@
    }
}

impl Eq for DataRuleSet {}

impl PartialOrd for DataRuleSet {
    /// `<` and its kin on rule sets: every two rule sets are ordered.
    fn partial_cmp(&self, other: &DataRuleSet) -> (order: Option<Ordering>) {
        match self.compare(other) {
            Order::Less => Some(Ordering::Less),
            Order::Equal => Some(Ordering::Equal),
            Order::Greater => Some(Ordering::Greater),
        }
    }
}

impl vstd::std_specs::cmp::PartialOrdSpecImpl for DataRuleSet {
    open spec fn obeys_partial_cmp_spec() -> bool {
        true
    }

    open spec fn partial_cmp_spec(&self, other: &DataRuleSet) -> Option<Ordering> {
        match order_rule_sets(self@, other@) {
            Order::Less => Some(Ordering::Less),
            Order::Equal => Some(Ordering::Equal),
            Order::Greater => Some(Ordering::Greater),
        }
    }
}

/// A rule set as a scripting runtime sees it: one value, of whatever category,
/// that answers the runtime's rich comparisons and gives its hash.
#[derive(Debug)]
pub struct PyRuleSet {
    rules: DataRuleSet,
}

impl View for PyRuleSet {
    type V = RuleSetView;

    closed spec fn view(&self) -> RuleSetView {
        self.rules@
    }
}

impl Clone for PyRuleSet {
    /// A rule set of its own that grants the same.
    fn clone(&self) -> (copy: PyRuleSet)
        ensures
            copy@ == self@,
    {
        PyRuleSet { rules: self.rules.clone() }
    }
}

impl PyRuleSet {
    /// Wraps a rule set.
    pub fn new(rules: DataRuleSet) -> (wrapped: PyRuleSet)
        ensures
            wrapped@ == rules@,
    {
        PyRuleSet { rules }
    }

    /// The rule set inside.
    pub fn rules(&self) -> (rules: &DataRuleSet)
        ensures
            rules@ == self@,
    {
        &self.rules
    }

    /// Builds the policy of the rule set and merges it into `context`, from
    /// the engine's most restrictive policy of the category.
    pub fn enable_to(&self, context: Context) -> (reached: Composition)
        ensures
            exists|start: EnginePolicy| #[trigger]
                reached.enabled_afresh(context.engine(), start, self@),
    {
        let reached = self.rules.enable_to(context);
        proof {
            let start = choose|start: EnginePolicy| #[trigger]
                reached.enabled_afresh(context.engine(), start, self.rules@);
            assert(reached.enabled_afresh(context.engine(), start, self@));
        }
        reached
    }

    /// Answers one of the six comparisons between this rule set and `other`.
    pub fn __richcmp__(&self, other: &PyRuleSet, op: CompareOp) -> (answer: bool)
        ensures
            answer == holds(op, order_rule_sets(self@, other@)),
    {
        let order = self.rules.compare(&other.rules);
        match op {
            CompareOp::Lt => match order {
                Order::Less => true,
                _ => false,
            },
            CompareOp::Le => match order {
                Order::Greater => false,
                _ => true,
            },
            CompareOp::Eq => match order {
                Order::Equal => true,
                _ => false,
            },
            CompareOp::Ne => match order {
                Order::Equal => false,
                _ => true,
            },
            CompareOp::Gt => match order {
                Order::Greater => true,
                _ => false,
            },
            CompareOp::Ge => match order {
                Order::Less => false,
                _ => true,
            },
        }
    }

    /// The hash of the rule set: what a hasher in its initial state gives for
    /// the rule set's hash input. Rule sets that are the same value have the
    /// same hash, however they were built.
    pub fn __hash__(&self) -> (hash: u64)
        ensures
            hash == DefaultHasher::spec_finish(hash_input(self@)),
    {
        let mut hasher = DefaultHasher::new();
        let mut rank: Vec<u8> = Vec::new();
        rank.push(self.rules.kind().rank());
        hasher.write(rank.as_slice());
        let flags = self.rules.flags();
        let mut pair: Vec<u8> = Vec::new();
        pair.push((flags % 256) as u8);
        pair.push((flags / 256) as u8);
        hasher.write(pair.as_slice());
        let reads = descriptor_bytes(&self.rules, false);
        hasher.write(reads.as_slice());
        let writes = descriptor_bytes(&self.rules, true);
        hasher.write(writes.as_slice());
        proof {
            assert(rank@ =~= seq![self@.kind.spec_rank()]);
            assert(pair@ =~= bytes_of_flags(self@.flags));
            assert(hasher@ =~= hash_input(self@));
        }
        hasher.finish()
    }
}

} // verus!
