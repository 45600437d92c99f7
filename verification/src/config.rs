//! The server configuration record and its typed access.

use vstd::prelude::*;

use crate::json::{obj_lookup, JsonValue};

verus! {

/// The server configuration: a map of parameter names to values, as the
/// configuration endpoint reports it under its `params` member.
#[derive(Debug)]
pub struct ParseConfig {
    pub params: Vec<(String, JsonValue)>,
}

impl ParseConfig {
    /// Reads one configuration parameter, first match.
    pub fn get<'a>(&'a self, key: &str) -> (r: Option<&'a JsonValue>)
        ensures
            match r {
                Some(m) => obj_lookup(self.params@, key@) == Some(*m),
                None => obj_lookup(self.params@, key@) is None,
            },
    {
        let n = self.params.len();
        let mut i: usize = 0;
        proof {
            assert(self.params@.skip(0int) =~= self.params@);
        }
        while i < n
            invariant
                i <= n,
                n == self.params@.len(),
                obj_lookup(self.params@, key@) == obj_lookup(self.params@.skip(i as int), key@),
            decreases n - i,
        {
            proof {
                assert(self.params@.skip(i as int)[0] == self.params@[i as int]);
                assert(self.params@.skip(i as int).skip(1) =~= self.params@.skip(i + 1int));
            }
            if crate::text::str_lex_cmp(self.params[i].0.as_str(), key) == 0 {
                return Some(&self.params[i].1);
            }
            i = i + 1;
        }
        proof {
            assert(self.params@.skip(n as int) =~= Seq::<(String, JsonValue)>::empty());
        }
        None
    }
}

} // verus!
