//! The global variable environment.

use vstd::prelude::*;
use crate::ast::{Value, names_view};
use crate::text::{int_of_text, is_true_word, is_false_word, parse_int, same_text, upper_text, true_word, false_word};

verus! {

/// Name and value of each variable, in the order of their first assignment.
pub type Bindings = Seq<(Seq<char>, Value)>;

/// Position of the last binding of `name`, or -1.
pub open spec fn key_index(b: Bindings, name: Seq<char>) -> int
    decreases b.len(),
{
    if b.len() == 0 {
        -1
    } else if b.last().0 == name {
        b.len() - 1
    } else {
        key_index(b.drop_last(), name)
    }
}

pub open spec fn lookup(b: Bindings, name: Seq<char>) -> Option<Value> {
    let i = key_index(b, name);
    if 0 <= i < b.len() {
        Some(b[i].1)
    } else {
        None
    }
}

/// The bindings after `name` is given `v`: an existing binding is replaced
/// in place, a new one goes last.
pub open spec fn assign(b: Bindings, name: Seq<char>, v: Value) -> Bindings {
    let i = key_index(b, name);
    if 0 <= i < b.len() {
        b.update(i, (name, v))
    } else {
        b.push((name, v))
    }
}

pub open spec fn names_of(b: Bindings) -> Seq<Seq<char>> {
    Seq::new(b.len(), |i: int| b[i].0)
}

/// What a variable stores when given `v`: a text that reads `TRUE` or `FALSE`
/// in any case becomes a truth value, one that reads as an integer a number.
pub open spec fn normalized(v: Value) -> Value {
    match v {
        Value::String(s) => if upper_text(s@) == true_word() {
            Value::Boolean(true)
        } else if upper_text(s@) == false_word() {
            Value::Boolean(false)
        } else {
            match int_of_text(s@) {
                Some(n) => Value::Number(n),
                None => v,
            }
        },
        _ => v,
    }
}

/// Whether no name is bound twice.
pub open spec fn names_unique(b: Bindings) -> bool {
    forall|i: int, j: int| 0 <= i < j < b.len() ==> #[trigger] b[i].0 != #[trigger] b[j].0
}

proof fn lemma_key_index_facts(b: Bindings, name: Seq<char>)
    ensures
        -1 <= key_index(b, name) < b.len(),
        0 <= key_index(b, name) ==> b[key_index(b, name)].0 == name,
        forall|i: int| key_index(b, name) < i < b.len() ==> #[trigger] b[i].0 != name,
    decreases b.len(),
{
    if b.len() > 0 && b.last().0 != name {
        lemma_key_index_facts(b.drop_last(), name);
        assert forall|i: int| key_index(b, name) < i < b.len() implies #[trigger] b[i].0 != name by {
            if i < b.len() - 1 {
                assert(b[i] == b.drop_last()[i]);
            }
        }
    }
}

proof fn lemma_key_index_same_keys(b1: Bindings, b2: Bindings, name: Seq<char>)
    requires
        b1.len() == b2.len(),
        forall|i: int| 0 <= i < b1.len() ==> #[trigger] b1[i].0 == b2[i].0,
    ensures
        key_index(b1, name) == key_index(b2, name),
    decreases b1.len(),
{
    if b1.len() > 0 {
        lemma_key_index_same_keys(b1.drop_last(), b2.drop_last(), name);
    }
}

/// After `name` is given `v`, `name` holds `v` and every other name holds
/// what it held before.
pub proof fn law_assign_then_lookup(b: Bindings, name: Seq<char>, v: Value, other: Seq<char>)
    ensures
        lookup(assign(b, name, v), name) == Some(v),
        other != name ==> lookup(assign(b, name, v), other) == lookup(b, other),
{
    lemma_key_index_facts(b, name);
    lemma_key_index_facts(b, other);
    let i = key_index(b, name);
    let j = key_index(b, other);
    let b2 = assign(b, name, v);
    if 0 <= i < b.len() {
        lemma_key_index_same_keys(b, b2, name);
        lemma_key_index_same_keys(b, b2, other);
        if other != name && 0 <= j {
            assert(j != i);
            assert(b2[j] == b[j]);
        }
    } else {
        assert(b2.drop_last() =~= b);
        if other != name && 0 <= j {
            assert(b2[j] == b[j]);
        }
    }
}

/// Giving a name a value keeps every name bound at most once.
pub proof fn law_assign_keeps_names_unique(b: Bindings, name: Seq<char>, v: Value)
    requires
        names_unique(b),
    ensures
        names_unique(assign(b, name, v)),
{
    lemma_key_index_facts(b, name);
    let b2 = assign(b, name, v);
    if key_index(b, name) == -1 {
        assert forall|i: int, j: int| 0 <= i < j < b2.len() implies #[trigger] b2[i].0 != #[trigger] b2[j].0 by {
            if j == b.len() {
                assert(b2[i] == b[i]);
            } else {
                assert(b2[i] == b[i] && b2[j] == b[j]);
            }
        }
    } else {
        assert forall|i: int, j: int| 0 <= i < j < b2.len() implies #[trigger] b2[i].0 != #[trigger] b2[j].0 by {
            assert(b2[i].0 == b[i].0 && b2[j].0 == b[j].0);
        }
    }
}

/// A text that reads as an integer, and in upper case as neither `TRUE` nor
/// `FALSE`, is stored as that number; other names keep their values.
pub proof fn law_set_numeric_text(b: Bindings, name: Seq<char>, t: String, other: Seq<char>)
    requires
        int_of_text(t@) is Some,
        upper_text(t@) != true_word(),
        upper_text(t@) != false_word(),
    ensures
        lookup(assign(b, name, normalized(Value::String(t))), name) == Some(
            Value::Number(int_of_text(t@)->0),
        ),
        other != name ==> lookup(assign(b, name, normalized(Value::String(t))), other) == lookup(
            b,
            other,
        ),
{
    law_assign_then_lookup(b, name, normalized(Value::String(t)), other);
}

/// A text that reads `TRUE` (or `FALSE`) in upper case is stored as that
/// truth value; other names keep their values.
pub proof fn law_set_truth_text(b: Bindings, name: Seq<char>, t: String, other: Seq<char>)
    requires
        upper_text(t@) == true_word() || upper_text(t@) == false_word(),
    ensures
        lookup(assign(b, name, normalized(Value::String(t))), name) == Some(
            Value::Boolean(upper_text(t@) == true_word()),
        ),
        other != name ==> lookup(assign(b, name, normalized(Value::String(t))), other) == lookup(
            b,
            other,
        ),
{
    reveal_strlit("TRUE");
    assert(true_word() != false_word()) by {
        assert(true_word().len() != false_word().len());
    }
    law_assign_then_lookup(b, name, normalized(Value::String(t)), other);
}

#[derive(Clone)]
pub struct VariableScope {
    variables: Vec<(String, Value)>,
}

impl View for VariableScope {
    type V = Bindings;

    closed spec fn view(&self) -> Bindings {
        Seq::new(self.variables@.len(), |i: int| (self.variables@[i].0@, self.variables@[i].1))
    }
}

impl VariableScope {
    fn new() -> (r: Self)
        ensures
            r@ == Seq::<(Seq<char>, Value)>::empty(),
    {
        let r = Self { variables: Vec::new() };
        assert(r@ =~= Seq::<(Seq<char>, Value)>::empty());
        r
    }

    fn find(&self, name: &str) -> (r: Option<usize>)
        ensures
            r is None ==> key_index(self@, name@) == -1,
            r is Some ==> r->0 == key_index(self@, name@) && r->0 < self.variables@.len(),
    {
        let mut found: Option<usize> = None;
        let mut i: usize = 0;
        while i < self.variables.len()
            invariant
                i <= self.variables@.len(),
                found is None ==> key_index(self@.subrange(0, i as int), name@) == -1,
                found is Some ==> found->0 == key_index(self@.subrange(0, i as int), name@)
                    && found->0 < i,
            decreases self.variables@.len() - i,
        {
            assert(self@.subrange(0, i + 1).drop_last() =~= self@.subrange(0, i as int));
            if same_text(self.variables[i].0.as_str(), name) {
                found = Some(i);
            }
            i = i + 1;
        }
        assert(self@.subrange(0, i as int) =~= self@);
        found
    }
}

/// The variables of one run, in a single global scope.
pub struct VariableManager {
    current_scope: VariableScope,
}

impl View for VariableManager {
    type V = Bindings;

    closed spec fn view(&self) -> Bindings {
        self.current_scope@
    }
}

impl VariableManager {
    pub fn new() -> (r: Self)
        ensures
            r@ == Seq::<(Seq<char>, Value)>::empty(),
    {
        Self { current_scope: VariableScope::new() }
    }

    /// Gives `name` the normalized form of `value`.
    pub fn set(&mut self, name: &str, value: Value)
        ensures
            final(self)@ == assign(old(self)@, name@, normalized(value)),
    {
        let stored = match value {
            Value::String(s) => {
                if is_true_word(s.as_str()) {
                    Value::Boolean(true)
                } else if is_false_word(s.as_str()) {
                    Value::Boolean(false)
                } else {
                    match parse_int(s.as_str()) {
                        Some(n) => Value::Number(n),
                        None => Value::String(s),
                    }
                }
            },
            other => other,
        };
        let ghost old_b = self@;
        match self.current_scope.find(name) {
            Some(i) => {
                self.current_scope.variables.set(i, (name.to_owned(), stored));
            },
            None => {
                self.current_scope.variables.push((name.to_owned(), stored));
            },
        }
        assert(self@ =~= assign(old_b, name@, normalized(value)));
    }

    pub fn get(&self, name: &str) -> (r: Option<&Value>)
        ensures
            r is None ==> lookup(self@, name@) is None,
            r is Some ==> lookup(self@, name@) == Some(*r->0),
    {
        match self.current_scope.find(name) {
            Some(i) => Some(&self.current_scope.variables[i].1),
            None => None,
        }
    }

    /// The names of all variables, in the order they were first set.
    pub fn get_all_names(&self) -> (r: Vec<String>)
        ensures
            names_view(r@) == names_of(self@),
    {
        let mut r: Vec<String> = Vec::new();
        let mut i: usize = 0;
        while i < self.current_scope.variables.len()
            invariant
                i <= self.current_scope.variables@.len(),
                self@ == self.current_scope@,
                r@.len() == i,
                names_view(r@) =~= names_of(self@).subrange(0, i as int),
            decreases self.current_scope.variables@.len() - i,
        {
            let n = self.current_scope.variables[i].0.clone();
            assert(n@ == names_of(self@)[i as int]);
            let ghost before = r@;
            r.push(n);
            i = i + 1;
            assert forall|k: int| 0 <= k < i implies names_view(r@)[k] == names_of(self@)[k] by {
                if k < i - 1 {
                    assert(r@[k] == before[k]);
                    assert(names_view(before)[k] == names_of(self@).subrange(0, i - 1)[k]);
                }
            }
            assert(names_view(r@) =~= names_of(self@).subrange(0, i as int));
        }
        assert(names_of(self@).subrange(0, i as int) =~= names_of(self@));
        r
    }
}

} // verus!
