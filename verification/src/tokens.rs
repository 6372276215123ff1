//! Walking a map that is keyed by tokens.

use std::collections::HashMap;

use vstd::prelude::*;

use crate::messages::Token;

verus! {

broadcast use vstd::std_specs::hash::group_hash_axioms;

/// The tokens of a map, each once, in an order that the map decides.
pub fn tokens_of<V>(map: &HashMap<Token, V>) -> (r: Vec<Token>)
    ensures
        r@.no_duplicates(),
        forall|token: Token| #[trigger] r@.contains(token) <==> map@.contains_key(token),
{
    let mut r: Vec<Token> = Vec::new();
    for token in it: map.keys()
        invariant
            r@ == it.seq().unref().take(it.index()),
            it.seq().unref().to_set() == map@.dom(),
            it.index() == it.seq().len() ==> r@.to_set() == map@.dom(),
    {
        r.push(*token);
        proof {
            let all = it.seq().unref();
            assert(r@ =~= all.take(it.index() + 1));
            assert(all.take(all.len() as int) =~= all);
        }
    }
    assert forall|token: Token| #[trigger] r@.contains(token) <==> map@.contains_key(token) by {
        assert(r@.to_set().contains(token) <==> r@.contains(token));
    }
    r
}

} // verus!
