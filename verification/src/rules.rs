//! Rules and the grammar table.
use crate::symbols::Variable;
use std::collections::HashMap;
use vstd::prelude::*;

verus! {

broadcast use vstd::std_specs::hash::group_hash_axioms;

/// A symbol on the right-hand side of a rule.
#[derive(Debug, PartialEq, Eq, Hash)]
pub enum RightRuleKind<T, V> {
    /// A terminal of the caller's alphabet.
    T(T),
    /// A variable.
    V(V),
    Epsilon,
    Failure,
    Any(usize),
    All,
    Omit,
}

impl<T: Copy, V: Copy> Clone for RightRuleKind<T, V> {
    fn clone(&self) -> (kind: Self)
        ensures
            kind == *self,
    {
        *self
    }
}

impl<T: Copy, V: Copy> Copy for RightRuleKind<T, V> {

}

/// The right-hand side of a rule: `first.0 first.1 / second`. The sequence
/// of the two symbols of `first` is tried before `second`.
#[derive(Debug, PartialEq, Eq, Hash)]
pub struct RightRule<T, V> {
    pub first: (RightRuleKind<T, V>, RightRuleKind<T, V>),
    pub second: RightRuleKind<T, V>,
}

impl<T: Copy, V: Copy> Clone for RightRule<T, V> {
    fn clone(&self) -> (right_rule: Self)
        ensures
            right_rule == *self,
    {
        *self
    }
}

impl<T: Copy, V: Copy> Copy for RightRule<T, V> {

}

impl<T, V> RightRule<T, V> {
    pub fn from_right_rule_kind(
        first: (RightRuleKind<T, V>, RightRuleKind<T, V>),
        second: RightRuleKind<T, V>,
    ) -> (right_rule: Self)
        ensures
            right_rule.first == first,
            right_rule.second == second,
    {
        RightRule { first, second }
    }
}

/// The production of one variable.
#[derive(Debug, PartialEq, Eq, Hash)]
pub struct Rule<T, V> {
    pub variable: V,
    pub right_rule: RightRule<T, V>,
}

impl<T: Copy, V: Copy> Clone for Rule<T, V> {
    fn clone(&self) -> (rule: Self)
        ensures
            rule == *self,
    {
        *self
    }
}

impl<T: Copy, V: Copy> Copy for Rule<T, V> {

}

impl<T, V> Rule<T, V> {
    pub fn new(variable: V, right_rule: RightRule<T, V>) -> (rule: Self)
        ensures
            rule.variable == variable,
            rule.right_rule == right_rule,
    {
        Rule { variable, right_rule }
    }
}

/// A grammar as a map: the rule of each key that has one.
pub type Grammar<T, V> = Map<u64, Rule<T, V>>;

/// The grammar that holds the rules of `pairs`. Where two pairs have
/// variables with the same key, the later one stays.
pub open spec fn grammar_of<T, V: Variable>(pairs: Seq<(V, RightRule<T, V>)>) -> Grammar<T, V>
    decreases pairs.len(),
{
    if pairs.len() == 0 {
        Map::empty()
    } else {
        let (variable, right_rule) = pairs.last();
        grammar_of(pairs.drop_last()).insert(variable.spec_key(), Rule { variable, right_rule })
    }
}

/// The grammar has a rule for the variable that `symbol` names, if it names
/// one.
pub open spec fn defines<T, V: Variable>(rules: Grammar<T, V>, symbol: RightRuleKind<T, V>) -> bool {
    symbol matches RightRuleKind::V(v) ==> rules.contains_key(v.spec_key())
}

/// The first variable on `right_rule` that has no rule in the grammar, from
/// the left symbol of the first alternative to the second alternative.
pub open spec fn undefined_in<T, V: Variable>(
    rules: Grammar<T, V>,
    right_rule: RightRule<T, V>,
) -> Option<V> {
    if !defines(rules, right_rule.first.0) {
        Some(right_rule.first.0->V_0)
    } else if !defines(rules, right_rule.first.1) {
        Some(right_rule.first.1->V_0)
    } else if !defines(rules, right_rule.second) {
        Some(right_rule.second->V_0)
    } else {
        None
    }
}

/// The first variable without a rule on the right-hand side of the rule
/// that the grammar holds for the variable of the pair at `i`.
pub open spec fn undefined_at<T, V: Variable>(
    rules: Grammar<T, V>,
    pairs: Seq<(V, RightRule<T, V>)>,
    i: int,
) -> Option<V> {
    undefined_in(rules, rules[pairs[i].0.spec_key()].right_rule)
}

/// The grammar is closed: it has a rule for every variable that one of its
/// rules names.
pub open spec fn is_closed<T, V: Variable>(rules: Grammar<T, V>) -> bool {
    forall|key: u64|
        rules.contains_key(key) ==> undefined_in(rules, #[trigger] rules[key].right_rule) is None
}

/// The grammar of `pairs` has a rule for a key exactly where the variable of
/// one of the pairs has that key.
pub proof fn lemma_grammar_keys<T, V: Variable>(pairs: Seq<(V, RightRule<T, V>)>, key: u64)
    ensures
        grammar_of(pairs).contains_key(key) <==> exists|i: int|
            0 <= i < pairs.len() && #[trigger] pairs[i].0.spec_key() == key,
    decreases pairs.len(),
{
    if pairs.len() > 0 {
        lemma_grammar_keys(pairs.drop_last(), key);
        if grammar_of(pairs).contains_key(key) {
            if pairs.last().0.spec_key() == key {
                assert(pairs[pairs.len() - 1].0.spec_key() == key);
            } else {
                let i = choose|i: int|
                    0 <= i < pairs.drop_last().len() && #[trigger] pairs.drop_last()[i].0.spec_key()
                        == key;
                assert(pairs[i].0.spec_key() == key);
            }
        }
        if exists|i: int| 0 <= i < pairs.len() && #[trigger] pairs[i].0.spec_key() == key {
            let i = choose|i: int| 0 <= i < pairs.len() && #[trigger] pairs[i].0.spec_key() == key;
            if i < pairs.len() - 1 {
                assert(pairs.drop_last()[i].0.spec_key() == key);
            }
        }
    }
}

/// The grammar table: one rule for each variable, found by the variable's
/// key.
pub struct Rules<T, V> {
    table: HashMap<u64, Rule<T, V>>,
}

impl<T, V> View for Rules<T, V> {
    type V = Grammar<T, V>;

    closed spec fn view(&self) -> Grammar<T, V> {
        self.table@
    }
}

impl<T, V: Variable> Rules<T, V> {
    /// The empty table.
    pub fn new() -> (rules: Self)
        ensures
            rules@ == Grammar::<T, V>::empty(),
    {
        Rules { table: HashMap::new() }
    }

    /// Adds `rule` as the rule of its variable. A rule that the table held
    /// for that variable is replaced.
    pub fn insert_rule(&mut self, rule: Rule<T, V>)
        ensures
            final(self)@ == old(self)@.insert(rule.variable.spec_key(), rule),
    {
        let key = rule.variable.key();
        self.table.insert(key, rule);
    }

    /// The rule of `variable`, where the table holds one.
    pub fn get(&self, variable: &V) -> (rule: Option<&Rule<T, V>>)
        ensures
            match rule {
                Some(rule) => self@.contains_key(variable.spec_key()) && *rule
                    == self@[variable.spec_key()],
                None => !self@.contains_key(variable.spec_key()),
            },
    {
        let key = variable.key();
        self.table.get(&key)
    }

    /// The number of variables that have a rule.
    pub fn len(&self) -> (len: usize)
        ensures
            len == self@.len(),
    {
        self.table.len()
    }
}

impl<T: Copy, V: Variable> Rules<T, V> {
    /// The table that holds the rules of `pairs`, inserted in their order.
    pub fn from_pairs(pairs: &[(V, RightRule<T, V>)]) -> (rules: Self)
        ensures
            rules@ == grammar_of(pairs@),
    {
        let mut rules = Rules::new();
        let mut i: usize = 0;
        while i < pairs.len()
            invariant
                i <= pairs.len(),
                rules@ == grammar_of(pairs@.take(i as int)),
            decreases pairs.len() - i,
        {
            let (variable, right_rule) = pairs[i];
            assert(pairs@.take(i + 1).drop_last() == pairs@.take(i as int));
            rules.insert_rule(Rule::new(variable, right_rule));
            i += 1;
        }
        assert(pairs@.take(i as int) == pairs@);
        rules
    }

    /// The first variable on `right_rule` that has no rule in the table.
    pub fn undefined_in(&self, right_rule: &RightRule<T, V>) -> (variable: Option<V>)
        ensures
            variable == undefined_in(self@, *right_rule),
    {
        if let RightRuleKind::V(v) = &right_rule.first.0 {
            if self.get(v).is_none() {
                return Some(*v);
            }
        }
        if let RightRuleKind::V(v) = &right_rule.first.1 {
            if self.get(v).is_none() {
                return Some(*v);
            }
        }
        if let RightRuleKind::V(v) = &right_rule.second {
            if self.get(v).is_none() {
                return Some(*v);
            }
        }
        None
    }

    /// The table that holds the rules of `pairs`, where it is closed. Where
    /// it is not, the result is a variable without a rule: of the rules in
    /// the table, taken in the order of `pairs`, the first one that names
    /// such a variable decides, and of its symbols the first one that does.
    pub fn closed_from_pairs(pairs: &[(V, RightRule<T, V>)]) -> (r: Result<Self, V>)
        ensures
            match r {
                Ok(rules) => rules@ == grammar_of(pairs@) && is_closed(rules@),
                Err(variable) => !is_closed(grammar_of(pairs@)) && exists|i: int|
                    {
                        &&& 0 <= i < pairs@.len()
                        &&& #[trigger] undefined_at(grammar_of(pairs@), pairs@, i) == Some(
                            variable,
                        )
                        &&& forall|j: int|
                            0 <= j < i ==> #[trigger] undefined_at(grammar_of(pairs@), pairs@, j)
                                is None
                    },
            },
    {
        let rules = Rules::from_pairs(pairs);
        let mut i: usize = 0;
        while i < pairs.len()
            invariant
                i <= pairs.len(),
                rules@ == grammar_of(pairs@),
                forall|j: int| 0 <= j < i ==> #[trigger] undefined_at(rules@, pairs@, j) is None,
            decreases pairs.len() - i,
        {
            proof {
                lemma_grammar_keys(pairs@, pairs@[i as int].0.spec_key());
            }
            if let Some(rule) = rules.get(&pairs[i].0) {
                if let Some(variable) = rules.undefined_in(&rule.right_rule) {
                    assert(undefined_at(rules@, pairs@, i as int) == Some(variable));
                    return Err(variable);
                }
            }
            i += 1;
        }
        proof {
            assert forall|key: u64| rules@.contains_key(key) implies undefined_in(
                rules@,
                #[trigger] rules@[key].right_rule,
            ) is None by {
                lemma_grammar_keys(pairs@, key);
                let j = choose|j: int| 0 <= j < pairs@.len() && pairs@[j].0.spec_key() == key;
                assert(undefined_at(rules@, pairs@, j) is None);
            }
        }
        Ok(rules)
    }
}

} // verus!
