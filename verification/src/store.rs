//! The variable store and the function table: the two name tables that
//! every block of a run shares.

use crate::scanner::push_line;
use vstd::hash_map::StringHashMap;
use vstd::prelude::*;

verus! {

/// The variable store: a value for each declared name. Values are text;
/// a number is stored as its decimal form.
pub struct VariableStore {
    map: StringHashMap<String>,
}

impl View for VariableStore {
    type V = Map<Seq<char>, Seq<char>>;

    closed spec fn view(&self) -> Map<Seq<char>, Seq<char>> {
        Map::new(|name: Seq<char>| self.map@.contains_key(name), |name: Seq<char>| self.map@[name]@)
    }
}

impl VariableStore {
    /// A store without variables.
    pub fn new() -> (r: Self)
        ensures
            r@ == Map::<Seq<char>, Seq<char>>::empty(),
    {
        let r = VariableStore { map: StringHashMap::new() };
        assert(r@ =~= Map::<Seq<char>, Seq<char>>::empty());
        r
    }

    /// Gives `name` the value `value`, in place of any it had.
    pub fn set(&mut self, name: &str, value: &str)
        ensures
            final(self)@ == old(self)@.insert(name@, value@),
    {
        self.map.insert(name.to_owned(), value.to_owned());
        assert(self@ =~= old(self)@.insert(name@, value@));
    }

    /// The value of `name`, if it has one.
    pub fn get(&self, name: &str) -> (r: Option<String>)
        ensures
            r is Some <==> self@.contains_key(name@),
            r is Some ==> r->0@ == self@[name@],
    {
        match self.map.get(name) {
            Some(value) => Some(value.clone()),
            None => None,
        }
    }

    /// Whether `name` has a value.
    pub fn contains(&self, name: &str) -> (r: bool)
        ensures
            r == self@.contains_key(name@),
    {
        self.map.contains_key(name)
    }

    /// Takes `name` out of the store and tells whether it was there.
    pub fn delete(&mut self, name: &str) -> (r: bool)
        ensures
            r == old(self)@.contains_key(name@),
            final(self)@ == old(self)@.remove(name@),
    {
        let r = self.map.contains_key(name);
        self.map.remove(name);
        assert(self@ =~= old(self)@.remove(name@));
        r
    }
}

/// The function table: the captured body of each defined function, as the
/// lines that stood between its `func` and its `cnuf`.
pub struct FunctionTable {
    map: StringHashMap<Vec<String>>,
}

impl View for FunctionTable {
    type V = Map<Seq<char>, Seq<Seq<char>>>;

    closed spec fn view(&self) -> Map<Seq<char>, Seq<Seq<char>>> {
        Map::new(
            |name: Seq<char>| self.map@.contains_key(name),
            |name: Seq<char>| self.map@[name].deep_view(),
        )
    }
}

impl FunctionTable {
    /// A table without functions.
    pub fn new() -> (r: Self)
        ensures
            r@ == Map::<Seq<char>, Seq<Seq<char>>>::empty(),
    {
        let r = FunctionTable { map: StringHashMap::new() };
        assert(r@ =~= Map::<Seq<char>, Seq<Seq<char>>>::empty());
        r
    }

    /// Gives `name` the body `body`, in place of any it had.
    pub fn define(&mut self, name: &str, body: Vec<String>)
        ensures
            final(self)@ == old(self)@.insert(name@, body.deep_view()),
    {
        self.map.insert(name.to_owned(), body);
        assert(self@ =~= old(self)@.insert(name@, body.deep_view()));
    }

    /// A copy of the body of `name`, if it is defined. What is done to the
    /// table afterwards does not reach the copy.
    pub fn get(&self, name: &str) -> (r: Option<Vec<String>>)
        ensures
            r is Some <==> self@.contains_key(name@),
            r is Some ==> r->0.deep_view() == self@[name@],
    {
        match self.map.get(name) {
            Some(body) => {
                let mut copy: Vec<String> = Vec::new();
                let mut i: usize = 0;
                assert(copy.deep_view() =~= body.deep_view().take(0));
                while i < body.len()
                    invariant
                        i <= body.len(),
                        copy.deep_view() == body.deep_view().take(i as int),
                    decreases body.len() - i,
                {
                    push_line(&mut copy, &body[i]);
                    assert(body.deep_view().take(i + 1) =~= body.deep_view().take(i as int).push(
                        body[i as int]@,
                    ));
                    i += 1;
                }
                assert(body.deep_view().take(body.len() as int) =~= body.deep_view());
                Some(copy)
            },
            None => None,
        }
    }
}

} // verus!
