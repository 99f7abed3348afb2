//! The split of a token-metadata answer into tokens to store and addresses to
//! exclude from later lookups.
use vstd::prelude::*;
use vstd::string::StringExecFns;

verus! {

/// The most token addresses asked for in one metadata call.
pub const METADATA_PAGE: usize = 100;

/// Token metadata as returned for an address.
#[derive(Clone, Debug, PartialEq)]
pub struct DatabaseToken {
    pub address: String,
    pub chain: String,
    pub name: String,
    pub symbol: String,
    pub decimals: i64,
}

/// An address that gave no metadata, recorded so it is not asked for again.
#[derive(Clone, Debug, PartialEq)]
pub struct DatabaseExcludedToken {
    pub address: String,
    pub address_with_chain: String,
    pub chain: String,
}

/// The tokens to store and the addresses to exclude.
pub struct TokenMetadataSplit {
    pub tokens: Vec<DatabaseToken>,
    pub excluded: Vec<DatabaseExcludedToken>,
}

/// A token is stored only with a name and a symbol.
pub open spec fn is_named(t: DatabaseToken) -> bool {
    t.name@.len() > 0 && t.symbol@.len() > 0
}

pub open spec fn named(tokens: Seq<DatabaseToken>) -> Seq<DatabaseToken> {
    tokens.filter(|t: DatabaseToken| is_named(t))
}

/// Whether some returned token has the address.
pub open spec fn answered(returned: Seq<DatabaseToken>, a: Seq<char>) -> bool {
    exists|k: int| 0 <= k < returned.len() && (#[trigger] returned[k]).address@ == a
}

/// The requested addresses that no returned token has, in order.
pub open spec fn unanswered(requested: Seq<String>, returned: Seq<DatabaseToken>) -> Seq<String> {
    requested.filter(|a: String| !answered(returned, a@))
}

pub open spec fn same_token(a: DatabaseToken, b: DatabaseToken) -> bool {
    &&& b.address@ == a.address@
    &&& b.chain@ == a.chain@
    &&& b.name@ == a.name@
    &&& b.symbol@ == a.symbol@
    &&& b.decimals == a.decimals
}

fn copy_token(t: &DatabaseToken) -> (r: DatabaseToken)
    ensures
        same_token(*t, r),
{
    DatabaseToken {
        address: t.address.clone(),
        chain: t.chain.clone(),
        name: t.name.clone(),
        symbol: t.symbol.clone(),
        decimals: t.decimals,
    }
}

fn is_answered(returned: &Vec<DatabaseToken>, a: &String) -> (r: bool)
    ensures
        r == answered(returned@, a@),
{
    let mut i: usize = 0;
    while i < returned.len()
        invariant
            i <= returned@.len(),
            forall|k: int| 0 <= k < i ==> (#[trigger] returned@[k]).address@ != a@,
        decreases returned@.len() - i,
    {
        if returned[i].address == *a {
            return true;
        }
        i = i + 1;
    }
    false
}

/// Keeps the returned tokens that have a name and a symbol, and records each
/// requested address that no returned token has as excluded on `chain`, its
/// key being the address, `-` and the chain name.
pub fn split_token_metadata(requested: &Vec<String>, returned: &Vec<DatabaseToken>, chain: &String) -> (r: TokenMetadataSplit)
    ensures
        r.tokens@.len() == named(returned@).len(),
        forall|k: int| 0 <= k < r.tokens@.len() ==> same_token(named(returned@)[k], #[trigger] r.tokens@[k]),
        r.excluded@.len() == unanswered(requested@, returned@).len(),
        forall|k: int| 0 <= k < r.excluded@.len() ==> {
            let a = unanswered(requested@, returned@)[k]@;
            &&& (#[trigger] r.excluded@[k]).address@ == a
            &&& r.excluded@[k].address_with_chain@ == a + seq!['-'] + chain@
            &&& r.excluded@[k].chain@ == chain@
        },
{
    let mut tokens: Vec<DatabaseToken> = Vec::new();
    let mut i: usize = 0;
    while i < returned.len()
        invariant
            i <= returned@.len(),
            tokens@.len() == named(returned@.subrange(0, i as int)).len(),
            forall|k: int| 0 <= k < tokens@.len() ==> same_token(named(returned@.subrange(0, i as int))[k], #[trigger] tokens@[k]),
        decreases returned@.len() - i,
    {
        let ghost prefix = returned@.subrange(0, i as int);
        assert(returned@.subrange(0, i + 1) == prefix.push(returned@[i as int]));
        proof {
            prefix.lemma_filter_push(returned@[i as int], |t: DatabaseToken| is_named(t));
        }
        let t = &returned[i];
        if !t.name.as_str().is_empty() && !t.symbol.as_str().is_empty() {
            tokens.push(copy_token(t));
        } else {
            proof {
                assert(!is_named(*t));
            }
        }
        i = i + 1;
    }
    assert(returned@.subrange(0, returned@.len() as int) == returned@);
    let mut excluded: Vec<DatabaseExcludedToken> = Vec::new();
    let mut j: usize = 0;
    while j < requested.len()
        invariant
            j <= requested@.len(),
            excluded@.len() == unanswered(requested@.subrange(0, j as int), returned@).len(),
            forall|k: int| 0 <= k < excluded@.len() ==> {
                let a = unanswered(requested@.subrange(0, j as int), returned@)[k]@;
                &&& (#[trigger] excluded@[k]).address@ == a
                &&& excluded@[k].address_with_chain@ == a + seq!['-'] + chain@
                &&& excluded@[k].chain@ == chain@
            },
        decreases requested@.len() - j,
    {
        let ghost prefix = requested@.subrange(0, j as int);
        assert(requested@.subrange(0, j + 1) == prefix.push(requested@[j as int]));
        proof {
            prefix.lemma_filter_push(requested@[j as int], |a: String| !answered(returned@, a@));
        }
        let a = &requested[j];
        if !is_answered(returned, a) {
            let mut key = a.clone();
            key.append("-");
            key.append(chain.as_str());
            proof {
                reveal_strlit("-");
                assert(key@ == a@ + seq!['-'] + chain@);
            }
            excluded.push(DatabaseExcludedToken { address: a.clone(), address_with_chain: key, chain: chain.clone() });
        }
        j = j + 1;
    }
    assert(requested@.subrange(0, requested@.len() as int) == requested@);
    TokenMetadataSplit { tokens, excluded }
}

} // verus!
