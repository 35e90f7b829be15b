//! Lookup in an ascending sequence of token identifiers.

use vstd::prelude::*;
use crate::model::ascending;
use crate::types::TokenId;

verus! {

/// Binary search for `token`.
///
/// An index that is returned always holds `token`. When nothing is returned
/// and the sequence is strictly ascending, `token` does not occur in it.
pub fn locate(tokens: &Vec<TokenId>, token: TokenId) -> (found: Option<usize>)
    ensures
        match found {
            Some(i) => i < tokens@.len() && tokens@[i as int] == token,
            None => ascending(tokens@) ==> !tokens@.contains(token),
        },
{
    let mut lo: usize = 0;
    let mut hi: usize = tokens.len();
    while lo < hi
        invariant
            lo <= hi <= tokens@.len(),
            ascending(tokens@) ==> forall|k: int| 0 <= k < lo ==> tokens@[k] < token,
            ascending(tokens@) ==> forall|k: int| hi <= k < tokens@.len() ==> tokens@[k] > token,
        decreases hi - lo,
    {
        let mid: usize = lo + (hi - lo) / 2;
        let probe: TokenId = tokens[mid];
        if probe == token {
            return Some(mid);
        } else if probe < token {
            lo = mid + 1;
        } else {
            hi = mid;
        }
    }
    None
}

} // verus!
