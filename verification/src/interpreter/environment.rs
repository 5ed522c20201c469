//! The store of variables: one flat map from names to values.

use super::error::{RuntimeError, RuntimeErrorView};
use crate::expr::{LiteralValue, LiteralView};
use crate::token::{Token, TokenView};
use vstd::prelude::*;

verus! {

/// A name and the value bound to it.
struct Binding {
    name: String,
    value: LiteralValue,
}

/// The store of variables. A name is bound to at most one value at a time;
/// the order in which names were bound plays no part.
pub struct Environment {
    bindings: Vec<Binding>,
}

/// The map that a list of bindings stands for: each name is bound as its
/// first binding in the list says.
spec fn map_of(bindings: Seq<Binding>) -> Map<Seq<char>, LiteralView>
    decreases bindings.len(),
{
    if bindings.len() == 0 {
        Map::empty()
    } else {
        map_of(bindings.drop_first()).insert(bindings[0].name@, bindings[0].value@)
    }
}

/// Whether `at` is the place of the first binding of `name`, or, where there
/// is none, the length of the list.
spec fn first_binding(bindings: Seq<Binding>, name: Seq<char>, at: int) -> bool {
    &&& 0 <= at <= bindings.len()
    &&& forall|j: int| 0 <= j < at ==> (#[trigger] bindings[j]).name@ != name
    &&& at < bindings.len() ==> bindings[at].name@ == name
}

proof fn lemma_lookup(bindings: Seq<Binding>, name: Seq<char>, at: int)
    requires
        first_binding(bindings, name, at),
    ensures
        map_of(bindings).contains_key(name) == (at < bindings.len()),
        at < bindings.len() ==> map_of(bindings)[name] == bindings[at].value@,
    decreases bindings.len(),
{
    if bindings.len() > 0 && at > 0 {
        let rest = bindings.drop_first();
        assert forall|j: int| 0 <= j < at - 1 implies (#[trigger] rest[j]).name@ != name by {
            assert(rest[j] == bindings[j + 1]);
        }
        lemma_lookup(rest, name, at - 1);
    }
}

proof fn lemma_rebind(bindings: Seq<Binding>, at: int, binding: Binding)
    requires
        first_binding(bindings, binding.name@, at),
        at < bindings.len(),
    ensures
        map_of(bindings.update(at, binding)) == map_of(bindings).insert(
            binding.name@,
            binding.value@,
        ),
    decreases bindings.len(),
{
    let rest = bindings.drop_first();
    if at == 0 {
        assert(bindings.update(at, binding).drop_first() == rest);
        assert(map_of(rest).insert(bindings[0].name@, bindings[0].value@).insert(
            binding.name@,
            binding.value@,
        ) == map_of(rest).insert(binding.name@, binding.value@));
    } else {
        assert forall|j: int| 0 <= j < at - 1 implies (#[trigger] rest[j]).name@
            != binding.name@ by {
            assert(rest[j] == bindings[j + 1]);
        }
        lemma_rebind(rest, at - 1, binding);
        assert(bindings.update(at, binding).drop_first() == rest.update(at - 1, binding));
        assert(bindings[0].name@ != binding.name@);
        assert(map_of(rest).insert(binding.name@, binding.value@).insert(
            bindings[0].name@,
            bindings[0].value@,
        ) == map_of(rest).insert(bindings[0].name@, bindings[0].value@).insert(
            binding.name@,
            binding.value@,
        ));
    }
}

proof fn lemma_bind_new(bindings: Seq<Binding>, binding: Binding)
    requires
        first_binding(bindings, binding.name@, bindings.len() as int),
    ensures
        map_of(bindings.push(binding)) == map_of(bindings).insert(binding.name@, binding.value@),
    decreases bindings.len(),
{
    if bindings.len() == 0 {
        assert(bindings.push(binding).drop_first() == bindings);
    } else {
        let rest = bindings.drop_first();
        assert forall|j: int| 0 <= j < rest.len() implies (#[trigger] rest[j]).name@
            != binding.name@ by {
            assert(rest[j] == bindings[j + 1]);
        }
        lemma_bind_new(rest, binding);
        assert(bindings.push(binding).drop_first() == rest.push(binding));
        assert(bindings[0].name@ != binding.name@);
        assert(map_of(rest).insert(binding.name@, binding.value@).insert(
            bindings[0].name@,
            bindings[0].value@,
        ) == map_of(rest).insert(bindings[0].name@, bindings[0].value@).insert(
            binding.name@,
            binding.value@,
        ));
    }
}

impl View for Environment {
    type V = Map<Seq<char>, LiteralView>;

    closed spec fn view(&self) -> Map<Seq<char>, LiteralView> {
        map_of(self.bindings@)
    }
}

/// The error for a variable that is not bound, named by `token`.
pub open spec fn undefined(token: TokenView) -> RuntimeErrorView {
    RuntimeErrorView::UndefinedVariable { name: token.tag->Identifer_0, line: token.line }
}

impl Environment {
    /// A store in which nothing is bound.
    pub fn new() -> (r: Self)
        ensures
            r@ == Map::<Seq<char>, LiteralView>::empty(),
    {
        Self { bindings: Vec::new() }
    }

    /// The place of the first binding of `name`, or the number of bindings.
    fn find(&self, name: &String) -> (at: usize)
        ensures
            first_binding(self.bindings@, name@, at as int),
    {
        let mut i: usize = 0;
        while i < self.bindings.len()
            invariant
                i <= self.bindings.len(),
                forall|j: int| 0 <= j < i ==> (#[trigger] self.bindings@[j]).name@ != name@,
            decreases self.bindings.len() - i,
        {
            if self.bindings[i].name == *name {
                return i;
            }
            i += 1;
        }
        i
    }

    /// Binds `key` to `value`, or to `nil` where no value is given, whether
    /// or not `key` was bound before.
    pub fn define(&mut self, key: String, value: Option<LiteralValue>)
        ensures
            final(self)@ == old(self)@.insert(
                key@,
                match value {
                    Some(v) => v@,
                    None => LiteralView::Nil,
                },
            ),
    {
        let value = match value {
            Some(v) => v,
            None => LiteralValue::Nil,
        };
        let at = self.find(&key);
        let binding = Binding { name: key, value };
        proof {
            if at < self.bindings.len() {
                lemma_rebind(self.bindings@, at as int, binding);
            } else {
                lemma_bind_new(self.bindings@, binding);
            }
        }
        if at < self.bindings.len() {
            self.bindings.set(at, binding);
        } else {
            self.bindings.push(binding);
        }
    }

    /// A copy of the value bound to the variable that `token` names.
    pub fn get(&self, token: &Token) -> (r: Result<LiteralValue, RuntimeError>)
        requires
            token@.tag is Identifer,
        ensures
            r is Ok == self@.contains_key(token@.tag->Identifer_0),
            r matches Ok(value) ==> value@ == self@[token@.tag->Identifer_0],
            r matches Err(error) ==> error@ == undefined(token@),
    {
        let name = match token.tag.get_identifier_value() {
            Some(name) => name,
            None => String::new(),
        };
        let at = self.find(&name);
        proof {
            lemma_lookup(self.bindings@, name@, at as int);
        }
        if at < self.bindings.len() {
            Ok(self.bindings[at].value.clone())
        } else {
            Err(RuntimeError::UndefinedVariable { name, line: token.line })
        }
    }

    /// Binds the variable that `token` names to `value`, if it is bound
    /// already, and hands the value back.
    pub fn assign(&mut self, token: &Token, value: LiteralValue) -> (r: Result<
        LiteralValue,
        RuntimeError,
    >)
        requires
            token@.tag is Identifer,
        ensures
            r is Ok == old(self)@.contains_key(token@.tag->Identifer_0),
            r matches Ok(assigned) ==> assigned@ == value@ && final(self)@ == old(self)@.insert(
                token@.tag->Identifer_0,
                value@,
            ),
            r matches Err(error) ==> error@ == undefined(token@) && final(self)@ == old(self)@,
    {
        let name = match token.tag.get_identifier_value() {
            Some(name) => name,
            None => String::new(),
        };
        let at = self.find(&name);
        proof {
            lemma_lookup(self.bindings@, name@, at as int);
        }
        if at < self.bindings.len() {
            let binding = Binding { name, value: value.clone() };
            proof {
                lemma_rebind(self.bindings@, at as int, binding);
            }
            self.bindings.set(at, binding);
            Ok(value)
        } else {
            Err(RuntimeError::UndefinedVariable { name, line: token.line })
        }
    }
}

} // verus!
