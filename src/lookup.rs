use std::collections::HashMap;
use vstd::prelude::*;

use crate::record::PipelineError;

verus! {

/// The label written for an address that the mapping does not hold.
pub const UNKNOWN_LABEL: &'static str = "UNKNOWN";

/// One element of the token list as it was read: either field may be missing.
pub struct TokenEntry {
    pub address: Option<String>,
    pub symbol: Option<String>,
}

/// Address to label, built once from the token list and read-only afterwards.
pub struct LookupMapping {
    labels: HashMap<String, String>,
}

impl View for LookupMapping {
    type V = Map<String, String>;

    closed spec fn view(&self) -> Map<String, String> {
        self.labels@
    }
}

/// An entry that carries both an address and a symbol.
pub open spec fn is_complete(t: TokenEntry) -> bool {
    t.address is Some && t.symbol is Some
}

/// The mapping that a list of complete entries describes: each entry in turn
/// sets its address to its symbol, so a later duplicate wins.
pub open spec fn mapping_of(tokens: Seq<TokenEntry>) -> Map<String, String>
    decreases tokens.len(),
{
    if tokens.len() == 0 {
        Map::empty()
    } else {
        let last = tokens.last();
        mapping_of(tokens.drop_last()).insert(last.address->Some_0, last.symbol->Some_0)
    }
}

/// The label of `address` under `m`, with the sentinel for a missing address.
pub open spec fn label_of(m: Map<String, String>, address: String) -> Seq<char> {
    if m.contains_key(address) {
        m[address]@
    } else {
        UNKNOWN_LABEL@
    }
}

/// Relies on HashMap::insert: afterwards the key maps to the new value and
/// every other key keeps its value.
#[verifier::external_body]
fn map_insert(m: &mut HashMap<String, String>, k: String, v: String)
    ensures
        final(m)@ == old(m)@.insert(k, v),
{
    m.insert(k, v);
}

/// Relies on HashMap::get: the value stored under the key, if there is one.
#[verifier::external_body]
fn map_get<'a>(m: &'a HashMap<String, String>, k: &String) -> (r: Option<&'a String>)
    ensures
        match r {
            Some(v) => m@.contains_key(*k) && *v == m@[*k],
            None => !m@.contains_key(*k),
        },
{
    m.get(k)
}

impl LookupMapping {
    /// Builds the mapping from the token list. A missing list, or any entry
    /// without an address or a symbol, fails the whole load.
    pub fn build(tokens: Option<Vec<TokenEntry>>) -> (r: Result<LookupMapping, PipelineError>)
        ensures
            r is Ok <==> tokens is Some && forall|i: int|
                0 <= i < tokens->Some_0@.len() ==> is_complete(#[trigger] tokens->Some_0@[i]),
            r is Ok ==> r->Ok_0@ == mapping_of(tokens->Some_0@),
            r is Err ==> r->Err_0 is Decode,
    {
        let ts = match tokens {
            None => {
                return Err(PipelineError::Decode("the token list is missing".to_owned()));
            },
            Some(ts) => ts,
        };
        let ghost all = ts@;
        let mut labels: HashMap<String, String> = HashMap::new();
        let mut n: usize = 0;
        while n < ts.len()
            invariant
                all == ts@,
                tokens == Some(ts),
                n <= all.len(),
                forall|j: int| 0 <= j < n ==> is_complete(#[trigger] all[j]),
                labels@ == mapping_of(all.take(n as int)),
            decreases all.len() - n,
        {
            let t = &ts[n];
            match (&t.address, &t.symbol) {
                (Some(a), Some(s)) => {
                    map_insert(&mut labels, a.clone(), s.clone());
                    proof {
                        let next = all.take(n + 1);
                        assert(next.drop_last() =~= all.take(n as int));
                    }
                    n = n + 1;
                },
                _ => {
                    assert(!is_complete(tokens->Some_0@[n as int]));
                    return Err(PipelineError::Decode("a token lacks its address or symbol".to_owned()));
                },
            }
        }
        assert(all.take(n as int) =~= all);
        Ok(LookupMapping { labels })
    }

    /// The label of `address`: its mapped symbol, or `UNKNOWN_LABEL`.
    pub fn label(&self, address: &String) -> (r: String)
        ensures
            r@ == label_of(self@, *address),
    {
        match map_get(&self.labels, address) {
            Some(v) => v.clone(),
            None => UNKNOWN_LABEL.to_owned(),
        }
    }
}

} // verus!
