//! Parameters bound by matching a path against a route pattern.

use crate::sorted_map::SortedMap;
use vstd::prelude::*;

verus! {

/// Parameter names and the values bound to them.
#[derive(Debug, Clone, PartialEq, Eq)]
pub struct Params {
    params: SortedMap<String>,
}

impl View for Params {
    type V = Map<Seq<char>, Seq<char>>;

    closed spec fn view(&self) -> Map<Seq<char>, Seq<char>> {
        self.params@.map_values(|v: String| v@)
    }
}

impl Params {
    /// The entries are kept in key order.
    pub closed spec fn wf(&self) -> bool {
        self.params.wf()
    }

    /// No parameters.
    pub fn new() -> (r: Params)
        ensures
            r.wf(),
            r@ == Map::<Seq<char>, Seq<char>>::empty(),
    {
        let r = Params { params: SortedMap::new() };
        assert(r@ =~= Map::<Seq<char>, Seq<char>>::empty());
        r
    }

    /// The value bound to `key`.
    pub fn param(&self, key: &str) -> (r: Option<&String>)
        requires
            self.wf(),
        ensures
            match r {
                Some(v) => self@.contains_key(key@) && self@[key@] == v@,
                None => !self@.contains_key(key@),
            },
    {
        self.params.get(key)
    }

    /// Binds `value` to `key`, replacing an earlier binding.
    pub fn set_param(&mut self, key: &str, value: &str)
        requires
            old(self).wf(),
        ensures
            final(self).wf(),
            final(self)@ == old(self)@.insert(key@, value@),
    {
        self.params.insert(String::from_str(key), String::from_str(value));
        assert(self@ =~= old(self)@.insert(key@, value@));
    }
}

} // verus!
