use std::collections::HashMap;
use vstd::prelude::*;

verus! {

broadcast use vstd::std_specs::hash::group_hash_axioms;

/// Distinct symbols have distinct code points.
proof fn lemma_code_injective(a: char, b: char)
    ensures
        a as u32 == b as u32 ==> a == b,
{
    assert(a as u32 == a as int);
    assert(b as u32 == b as int);
}

/// A table of productions: each symbol is rewritten to a sequence of symbols.
/// A symbol without a production is terminal.
pub struct Grammar {
    rules: HashMap<u32, Vec<char>>,
}

impl View for Grammar {
    type V = Map<char, Seq<char>>;

    /// The production of each symbol that has one.
    closed spec fn view(&self) -> Map<char, Seq<char>> {
        Map::new(|c: char| self.rules@.contains_key(c as u32), |c: char| self.rules@[c as u32]@)
    }
}

impl Grammar {
    /// A grammar with no productions.
    pub fn new() -> (r: Grammar)
        ensures
            r@ == Map::<char, Seq<char>>::empty(),
    {
        let r = Grammar { rules: HashMap::new() };
        assert(r@ =~= Map::<char, Seq<char>>::empty());
        r
    }

    /// Gives `symbol` the production `production`, replacing any it had.
    pub fn insert(&mut self, symbol: char, production: Vec<char>)
        ensures
            final(self)@ == old(self)@.insert(symbol, production@),
    {
        let ghost v = production;
        let ghost p = production@;
        self.rules.insert(symbol as u32, production);
        assert(self.rules@ == old(self).rules@.insert(symbol as u32, v));
        let ghost want = old(self)@.insert(symbol, p);
        assert forall|c: char|
            #![trigger want.contains_key(c)]
            #![trigger self@.contains_key(c)]
            self@.contains_key(c) == want.contains_key(c) && (want.contains_key(c) ==> self@[c]
                == want[c]) by {
            lemma_code_injective(c, symbol);
        }
        assert(self@ =~= want);
    }

    /// The production of `symbol`, if it has one.
    pub fn get(&self, symbol: char) -> (r: Option<&Vec<char>>)
        ensures
            match r {
                Some(p) => self@.contains_key(symbol) && p@ == self@[symbol],
                None => !self@.contains_key(symbol),
            },
    {
        self.rules.get(&(symbol as u32))
    }
}

} // verus!
