//! The mathematical model of the ownership index, and what holds of it.
//!
//! The index is a total map from accounts to sequences of token identifiers;
//! an account that never held a token maps to the empty sequence.

use vstd::prelude::*;
use crate::types::{AccountId, TokenId};

verus! {

/// The ownership index as a mathematical value.
pub type Ownership = Map<AccountId, Seq<TokenId>>;

/// Every account is mapped, most of them to the empty sequence.
pub open spec fn total(m: Ownership) -> bool {
    forall|a: AccountId| m.contains_key(a)
}

/// The index in which nobody holds anything.
pub open spec fn vacant() -> Ownership {
    Map::total(|a: AccountId| Seq::<TokenId>::empty())
}

/// Strictly ascending, hence free of duplicates.
pub open spec fn ascending(s: Seq<TokenId>) -> bool {
    forall|i: int, j: int| 0 <= i < j < s.len() ==> s[i] < s[j]
}

/// `token` is greater than everything in `s`.
pub open spec fn above(s: Seq<TokenId>, token: TokenId) -> bool {
    forall|i: int| 0 <= i < s.len() ==> s[i] < token
}

/// Everything in `s` other than `token` itself is smaller than `token`.
pub open spec fn above_others(s: Seq<TokenId>, token: TokenId) -> bool {
    forall|i: int| 0 <= i < s.len() ==> s[i] == token || s[i] < token
}

/// `owner` holds `token` at position `index`.
pub open spec fn held_at(m: Ownership, owner: AccountId, token: TokenId, index: int) -> bool {
    0 <= index < m[owner].len() && m[owner][index] == token
}

/// `owner` holds `token`.
pub open spec fn holds(m: Ownership, owner: AccountId, token: TokenId) -> bool {
    m[owner].contains(token)
}

/// No account holds `token`.
pub open spec fn unheld(m: Ownership, token: TokenId) -> bool {
    forall|a: AccountId| !holds(m, a, token)
}

/// `token` added at the end of what `owner` holds.
pub open spec fn appended(m: Ownership, owner: AccountId, token: TokenId) -> Ownership {
    m.insert(owner, m[owner].push(token))
}

/// What `owner` holds at position `index` taken away.
pub open spec fn removed_at(m: Ownership, owner: AccountId, index: int) -> Ownership {
    m.insert(owner, m[owner].remove(index))
}

/// `token` put back at position `index` of what `owner` holds.
pub open spec fn restored_at(m: Ownership, owner: AccountId, index: int, token: TokenId) -> Ownership {
    m.insert(owner, m[owner].insert(index, token))
}

/// The token at position `index` of `from` moved to the end of what `to` holds.
pub open spec fn transferred_at(m: Ownership, from: AccountId, to: AccountId, index: int) -> Ownership {
    appended(removed_at(m, from, index), to, m[from][index])
}

/// `after` is `before` with `token` moved from where `from` held it to the
/// end of what `to` holds.
pub open spec fn moved(
    before: Ownership,
    after: Ownership,
    from: AccountId,
    to: AccountId,
    token: TokenId,
) -> bool {
    exists|i: int| #[trigger]
        held_at(before, from, token, i) && after == transferred_at(before, from, to, i)
}

/// `after` is `before` with `token` taken from where `from` held it.
pub open spec fn retired(before: Ownership, after: Ownership, from: AccountId, token: TokenId) -> bool {
    exists|i: int| #[trigger] held_at(before, from, token, i) && after == removed_at(before, from, i)
}

/// The lookup of `token` among what `from` holds may fail: the token is not
/// there, or the sequence is not ascending.
pub open spec fn may_miss(before: Ownership, from: AccountId, token: TokenId) -> bool {
    ascending(before[from]) ==> !holds(before, from, token)
}

/// Every account's sequence is strictly ascending.
pub open spec fn all_ascending(m: Ownership) -> bool {
    forall|a: AccountId| ascending(#[trigger] m[a])
}

/// No token is held by two accounts.
pub open spec fn exclusive(m: Ownership) -> bool {
    forall|a: AccountId, b: AccountId, t: TokenId|
        a != b && #[trigger] holds(m, a, t) ==> !#[trigger] holds(m, b, t)
}

/// The index is one that the ledger's search can rely on: every account is
/// mapped, every sequence ascends strictly, and no token has two holders.
pub open spec fn well_formed(m: Ownership) -> bool {
    total(m) && all_ascending(m) && exclusive(m)
}

/// Putting a token back where it was taken from gives the index as it was
/// before the removal.
pub proof fn law_restore_undoes_removal(m: Ownership, owner: AccountId, index: int)
    requires
        total(m),
        0 <= index < m[owner].len(),
    ensures
        restored_at(removed_at(m, owner, index), owner, index, m[owner][index]) == m,
{
    let s = m[owner];
    assert(s.remove(index).insert(index, s[index]) =~= s);
    assert(restored_at(removed_at(m, owner, index), owner, index, s[index]) =~= m);
}

/// What a sequence contains after a push: what it contained, and the new
/// element.
proof fn lemma_push_contains(s: Seq<TokenId>, token: TokenId, t: TokenId)
    ensures
        s.push(token).contains(t) <==> (s.contains(t) || t == token),
{
    let p = s.push(token);
    if s.contains(t) {
        let i = choose|i: int| 0 <= i < s.len() && s[i] == t;
        assert(p[i] == t);
    }
    if t == token {
        assert(p[s.len() as int] == t);
    }
    if p.contains(t) {
        let i = choose|i: int| 0 <= i < p.len() && p[i] == t;
        if i < s.len() {
            assert(s[i] == t);
        }
    }
}

/// Taking an element out adds nothing to a sequence.
proof fn lemma_remove_contains(s: Seq<TokenId>, index: int, t: TokenId)
    requires
        0 <= index < s.len(),
        s.remove(index).contains(t),
    ensures
        s.contains(t),
{
    let r = s.remove(index);
    let i = choose|i: int| 0 <= i < r.len() && r[i] == t;
    if i < index {
        assert(s[i] == t);
    } else {
        assert(s[i + 1] == t);
    }
}

/// Taking an element out of an ascending sequence leaves an ascending
/// sequence in which that element no longer occurs.
proof fn lemma_remove_ascending(s: Seq<TokenId>, index: int)
    requires
        ascending(s),
        0 <= index < s.len(),
    ensures
        ascending(s.remove(index)),
        !s.remove(index).contains(s[index]),
{
    let r = s.remove(index);
    assert forall|i: int, j: int| 0 <= i < j < r.len() implies r[i] < r[j] by {
        let si = if i < index { i } else { i + 1 };
        let sj = if j < index { j } else { j + 1 };
        assert(r[i] == s[si] && r[j] == s[sj]);
    }
    if r.contains(s[index]) {
        let i = choose|i: int| 0 <= i < r.len() && r[i] == s[index];
        let si = if i < index { i } else { i + 1 };
        assert(r[i] == s[si]);
        assert(si != index);
        if si < index {
            assert(s[si] < s[index]);
        } else {
            assert(s[index] < s[si]);
        }
    }
}

/// The empty index is well formed.
pub proof fn law_vacant_well_formed()
    ensures
        well_formed(vacant()),
        forall|a: AccountId| vacant()[a] == Seq::<TokenId>::empty(),
{
    assert forall|a: AccountId, b: AccountId, t: TokenId|
        a != b && #[trigger] holds(vacant(), a, t) implies !#[trigger] holds(vacant(), b, t) by {
        assert(vacant()[a].len() == 0);
    }
}

/// In a well-formed index every account's sequence is strictly ascending,
/// so no token occurs twice in it, and a token has at most one holder.
pub proof fn law_well_formed_means(m: Ownership, a: AccountId, b: AccountId, t: TokenId)
    requires
        well_formed(m),
    ensures
        forall|i: int, j: int| 0 <= i < j < m[a].len() ==> m[a][i] < m[a][j],
        forall|i: int, j: int| 0 <= i < m[a].len() && 0 <= j < m[a].len() && i != j ==> m[a][i] != m[a][j],
        m[a].contains(t) && m[b].contains(t) ==> a == b,
{
    assert(ascending(m[a]));
    assert forall|i: int, j: int|
        0 <= i < m[a].len() && 0 <= j < m[a].len() && i != j implies m[a][i] != m[a][j] by {
        if i < j {
            assert(m[a][i] < m[a][j]);
        } else {
            assert(m[a][j] < m[a][i]);
        }
    }
    if m[a].contains(t) && m[b].contains(t) && a != b {
        assert(holds(m, a, t));
        assert(holds(m, b, t));
    }
}

/// After a token is appended its new holder has it, at the end.
pub proof fn law_append_holds(m: Ownership, owner: AccountId, token: TokenId)
    ensures
        holds(appended(m, owner, token), owner, token),
        appended(m, owner, token)[owner] == m[owner].push(token),
        appended(m, owner, token)[owner].last() == token,
{
    lemma_push_contains(m[owner], token, token);
}

/// Appending a token changes nothing for any other account.
pub proof fn law_append_local(m: Ownership, owner: AccountId, token: TokenId, other: AccountId)
    requires
        total(m),
        other != owner,
    ensures
        appended(m, owner, token)[other] == m[other],
{
}

/// In an ascending sequence a token has one position, so what a transfer or
/// a burn leaves behind is determined by the token alone.
pub proof fn law_position_unique(m: Ownership, owner: AccountId, token: TokenId, i: int, j: int)
    requires
        ascending(m[owner]),
        held_at(m, owner, token, i),
        held_at(m, owner, token, j),
    ensures
        i == j,
{
    if i < j {
        assert(m[owner][i] < m[owner][j]);
    } else if j < i {
        assert(m[owner][j] < m[owner][i]);
    }
}

/// Appending a token keeps the index well formed, provided that nobody
/// holds the token yet and that it is greater than everything its new
/// holder has.
pub proof fn law_append_keeps_well_formed(m: Ownership, owner: AccountId, token: TokenId)
    requires
        well_formed(m),
        unheld(m, token),
        above(m[owner], token),
    ensures
        well_formed(appended(m, owner, token)),
        holds(appended(m, owner, token), owner, token),
{
    let n = appended(m, owner, token);
    lemma_push_contains(m[owner], token, token);
    assert forall|a: AccountId| ascending(#[trigger] n[a]) by {
        assert(ascending(m[a]));
        if a == owner {
            assert(n[a] == m[owner].push(token));
        } else {
            assert(n[a] == m[a]);
        }
    }
    assert forall|a: AccountId, b: AccountId, t: TokenId|
        a != b && #[trigger] holds(n, a, t) implies !#[trigger] holds(n, b, t) by {
        lemma_push_contains(m[owner], token, t);
        assert(!holds(m, a, token) && !holds(m, b, token));
        if holds(n, b, t) {
            if a == owner {
                assert(n[b] == m[b]);
                assert(holds(m, b, t));
                assert(holds(m, a, t));
            } else if b == owner {
                assert(n[a] == m[a]);
                assert(holds(m, a, t));
                assert(holds(m, b, t));
            } else {
                assert(n[a] == m[a] && n[b] == m[b]);
                assert(holds(m, a, t) && holds(m, b, t));
            }
        }
    }
}

/// Taking a token out of a well-formed index leaves a well-formed index in
/// which nobody holds that token, and changes no other account.
pub proof fn law_removal_keeps_well_formed(m: Ownership, owner: AccountId, index: int)
    requires
        well_formed(m),
        0 <= index < m[owner].len(),
    ensures
        well_formed(removed_at(m, owner, index)),
        unheld(removed_at(m, owner, index), m[owner][index]),
        forall|a: AccountId| a != owner ==> removed_at(m, owner, index)[a] == m[a],
{
    let n = removed_at(m, owner, index);
    let token = m[owner][index];
    assert(ascending(m[owner]));
    lemma_remove_ascending(m[owner], index);
    assert(holds(m, owner, token));
    assert forall|a: AccountId| ascending(#[trigger] n[a]) by {
        assert(ascending(m[a]));
    }
    assert forall|a: AccountId, t: TokenId| #[trigger] holds(n, a, t) implies holds(m, a, t) by {
        if a == owner {
            lemma_remove_contains(m[owner], index, t);
        }
    }
    assert forall|a: AccountId, b: AccountId, t: TokenId|
        a != b && #[trigger] holds(n, a, t) implies !#[trigger] holds(n, b, t) by {
        if holds(n, b, t) {
            assert(holds(m, a, t) && holds(m, b, t));
        }
    }
    assert forall|a: AccountId| !holds(n, a, token) by {
        if holds(n, a, token) {
            assert(holds(m, a, token));
            assert(a == owner);
        }
    }
}

/// After a transfer out of a well-formed index the receiver holds the token
/// and nobody else does. Accounts other than the two are unchanged.
pub proof fn law_transfer_moves(m: Ownership, from: AccountId, to: AccountId, index: int)
    requires
        well_formed(m),
        0 <= index < m[from].len(),
    ensures
        holds(transferred_at(m, from, to, index), to, m[from][index]),
        forall|a: AccountId|
            a != to ==> !holds(transferred_at(m, from, to, index), a, m[from][index]),
        forall|a: AccountId|
            a != to && a != from ==> transferred_at(m, from, to, index)[a] == m[a],
{
    let token = m[from][index];
    let mid = removed_at(m, from, index);
    let n = transferred_at(m, from, to, index);
    law_removal_keeps_well_formed(m, from, index);
    lemma_push_contains(mid[to], token, token);
    assert forall|a: AccountId| a != to implies !holds(n, a, token) by {
        assert(n[a] == mid[a]);
        assert(!holds(mid, a, token));
    }
}

/// A transfer out of a well-formed index leaves a well-formed index,
/// provided that the token is greater than every other token the receiver
/// has.
pub proof fn law_transfer_keeps_well_formed(
    m: Ownership,
    from: AccountId,
    to: AccountId,
    index: int,
)
    requires
        well_formed(m),
        0 <= index < m[from].len(),
        above_others(m[to], m[from][index]),
    ensures
        well_formed(transferred_at(m, from, to, index)),
{
    let token = m[from][index];
    let mid = removed_at(m, from, index);
    law_removal_keeps_well_formed(m, from, index);
    assert forall|i: int| 0 <= i < mid[to].len() implies mid[to][i] < token by {
        assert(!holds(mid, to, token));
        if to == from {
            let si = if i < index { i } else { i + 1 };
            assert(mid[to][i] == m[to][si]);
        } else {
            assert(mid[to][i] == m[to][i]);
        }
    }
    law_append_keeps_well_formed(mid, to, token);
}

} // verus!
