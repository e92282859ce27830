//! Health rules: one comparison on one field of a sample.
use super::{Fault, MonitorError, MonitorRule, RuleOperator, RuleView};
use crate::json::values::{empty_object, object, text_value, with};
use crate::json::{encoded_size, is_exact, is_number, number_order, resolved, with_member, Json, Order, Tree};
use crate::text::{before, byte_len, characters, copied, less, same, utf8_len};
use vstd::prelude::*;

verus! {

/// Every `~` of a JSON pointer is followed by `0` or `1`.
pub open spec fn escapes_valid(pointer: Seq<char>) -> bool {
    forall|i: int|
        0 <= i < pointer.len() && #[trigger] pointer[i] == '~' ==> i + 1 < pointer.len() && (pointer[i + 1] == '0'
            || pointer[i + 1] == '1')
}

pub open spec fn operator_name(operator: RuleOperator) -> Seq<char> {
    match operator {
        RuleOperator::Eq => "eq"@,
        RuleOperator::Ne => "ne"@,
        RuleOperator::Gt => "gt"@,
        RuleOperator::Ge => "ge"@,
        RuleOperator::Lt => "lt"@,
        RuleOperator::Le => "le"@,
    }
}

/// A rule as a JSON value.
pub open spec fn rule_tree(r: RuleView) -> Tree {
    with_member(
        with_member(
            with_member(
                with_member(
                    with_member(empty_object(), "pointer"@, Tree::Text(r.pointer)),
                    "operator"@,
                    Tree::Text(operator_name(r.operator)),
                ),
                "value"@,
                r.value,
            ),
            "failure_samples"@,
            Tree::Unsigned(r.failure_samples as u64),
        ),
        "success_samples"@,
        Tree::Unsigned(r.success_samples as u64),
    )
}

pub open spec fn comparable(value: Tree) -> bool {
    match value {
        Tree::Bool(_) => true,
        Tree::Text(s) => byte_len(s) <= 4096,
        _ => is_exact(value),
    }
}

/// A rule that can be evaluated.
pub open spec fn rule_valid(r: RuleView) -> bool {
    &&& byte_len(r.pointer) <= 1024
    &&& r.pointer.len() == 0 || r.pointer[0] == '/'
    &&& escapes_valid(r.pointer)
    &&& comparable(r.value)
    &&& r.operator == RuleOperator::Eq || r.operator == RuleOperator::Ne || is_number(r.value)
    &&& encoded_size(rule_tree(r)) <= 4096
}

pub open spec fn rule_fault() -> Fault {
    Fault::Configuration("rule requires a valid JSON pointer and bounded bool/number/string comparison"@)
}

pub open spec fn text_order(a: Seq<char>, b: Seq<char>) -> Order {
    if less(a, b) { Order::Less } else if a == b { Order::Equal } else { Order::Greater }
}

pub open spec fn bool_order(a: bool, b: bool) -> Order {
    if a == b { Order::Equal } else if b { Order::Less } else { Order::Greater }
}

/// How the observed value compares with the expected one.
pub open spec fn observed_order(expected: Tree, actual: Tree) -> Option<Order> {
    match (expected, actual) {
        (Tree::Bool(e), Tree::Bool(a)) => Some(bool_order(a, e)),
        (Tree::Text(e), Tree::Text(a)) => if byte_len(a) <= 4096 { Some(text_order(a, e)) } else { None },
        _ => if is_exact(expected) && is_exact(actual) { Some(number_order(actual, expected)) } else { None },
    }
}

pub open spec fn satisfied(operator: RuleOperator, order: Order) -> bool {
    match operator {
        RuleOperator::Eq => order == Order::Equal,
        RuleOperator::Ne => order != Order::Equal,
        RuleOperator::Gt => order == Order::Greater,
        RuleOperator::Ge => order != Order::Less,
        RuleOperator::Lt => order == Order::Less,
        RuleOperator::Le => order != Order::Greater,
    }
}

/// Whether a sample is healthy, or why the rule cannot say.
pub open spec fn verdict(r: RuleView, value: Tree) -> Result<bool, Fault> {
    match resolved(value, r.pointer) {
        None => Err(Fault::Observation("rule field is missing"@)),
        Some(actual) => match observed_order(r.value, actual) {
            None => Err(Fault::Observation("rule field has an invalid type or number range"@)),
            Some(order) => Ok(satisfied(r.operator, order)),
        },
    }
}

pub fn check_escapes(pointer: &str) -> (r: bool)
    ensures
        r == escapes_valid(pointer@),
{
    let list = characters(pointer);
    let mut i: usize = 0;
    while i < list.len()
        invariant
            i <= list.len(),
            list@ == pointer@,
            forall|j: int|
                0 <= j < i && #[trigger] pointer@[j] == '~' ==> j + 1 < pointer@.len() && (pointer@[j + 1] == '0'
                    || pointer@[j + 1] == '1'),
        decreases list.len() - i,
    {
        if list[i] == '~' && !(i + 1 < list.len() && (list[i + 1] == '0' || list[i + 1] == '1')) {
            assert(pointer@[i as int] == '~');
            return false;
        }
        i = i + 1;
    }
    true
}

impl MonitorRule {
    pub fn to_json(&self) -> (r: Json)
        ensures
            r@ == rule_tree(self@),
    {
        let name = match self.operator {
            RuleOperator::Eq => "eq",
            RuleOperator::Ne => "ne",
            RuleOperator::Gt => "gt",
            RuleOperator::Ge => "ge",
            RuleOperator::Lt => "lt",
            RuleOperator::Le => "le",
        };
        let r = with(object(), "pointer", text_value(&self.pointer));
        let r = with(r, "operator", text_value(name));
        let r = with(r, "value", self.value.copy());
        let r = with(r, "failure_samples", Json::Unsigned(self.failure_samples as u64));
        with(r, "success_samples", Json::Unsigned(self.success_samples as u64))
    }

    pub fn validate(&self) -> (r: Result<(), MonitorError>)
        ensures
            match r {
                Ok(_) => rule_valid(self@),
                Err(e) => !rule_valid(self@) && e@ == rule_fault(),
            },
    {
        let list = characters(&self.pointer);
        let valid = utf8_len(&self.pointer) <= 1024 && (list.len() == 0 || list[0] == '/') && check_escapes(&self.pointer)
            && (match &self.value {
            Json::Bool(_) => true,
            Json::Text(s) => utf8_len(s) <= 4096,
            other => other.exact(),
        }) && (self.operator == RuleOperator::Eq || self.operator == RuleOperator::Ne || self.value.number())
            && self.to_json().size() <= 4096;
        if valid {
            Ok(())
        } else {
            Err(
                MonitorError::Configuration(
                    copied("rule requires a valid JSON pointer and bounded bool/number/string comparison"),
                ),
            )
        }
    }

    pub fn evaluate(&self, value: &Json) -> (r: Result<bool, MonitorError>)
        ensures
            match r {
                Ok(healthy) => verdict(self@, value@) == Ok::<bool, Fault>(healthy),
                Err(e) => verdict(self@, value@) == Err::<bool, Fault>(e@),
            },
    {
        let observed = match value.pointer(&self.pointer) {
            Some(observed) => observed,
            None => {
                return Err(MonitorError::Observation(copied("rule field is missing")));
            },
        };
        let order: Option<Order> = match (&self.value, observed) {
            (Json::Bool(expected), Json::Bool(actual)) => Some(
                if *actual == *expected {
                    Order::Equal
                } else if *expected {
                    Order::Less
                } else {
                    Order::Greater
                },
            ),
            (Json::Text(expected), Json::Text(actual)) => if utf8_len(actual) <= 4096 {
                Some(
                    if before(actual, expected) {
                        Order::Less
                    } else if same(actual, expected) {
                        Order::Equal
                    } else {
                        Order::Greater
                    },
                )
            } else {
                None
            },
            _ => if self.value.exact() && observed.exact() { observed.against(&self.value) } else { None },
        };
        match order {
            Some(order) => Ok(
                match self.operator {
                    RuleOperator::Eq => order == Order::Equal,
                    RuleOperator::Ne => order != Order::Equal,
                    RuleOperator::Gt => order == Order::Greater,
                    RuleOperator::Ge => order != Order::Less,
                    RuleOperator::Lt => order == Order::Less,
                    RuleOperator::Le => order != Order::Greater,
                },
            ),
            None => Err(MonitorError::Observation(copied("rule field has an invalid type or number range"))),
        }
    }
}

} // verus!
