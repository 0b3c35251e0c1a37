//! Properties that relate several operations of the store and the risk gate.
use crate::store::{pair_matches, token_matches, user_matches, StoreView, TokenEntry};
use crate::types::{risk_score, role_of, RISK_THRESHOLD};
use vstd::prelude::*;

verus! {

/// The risk score lies in [0, 100], and it is above the rejection threshold exactly
/// when at least one of the two flags is raised.
pub proof fn law_risk_gate(webdriver: bool, dev_tools: bool)
    ensures
        0 <= risk_score(webdriver, dev_tools) <= 100,
        risk_score(webdriver, dev_tools) > RISK_THRESHOLD as int <==> (webdriver || dev_tools),
        risk_score(false, false) == 0,
        risk_score(true, false) == 50,
        risk_score(false, true) == 50,
        risk_score(true, true) == 100,
{
}

/// Issuing a fresh token value: the result is well formed, users are untouched, and
/// the returned index holds the pair's only row, now carrying the new token. Every
/// other row is as before.
proof fn lemma_with_token(s: StoreView, login: Seq<char>, device_id: Seq<char>, token: Seq<char>) -> (i: int)
    requires
        s.wf(),
        !s.token_in_use(token),
    ensures
        s.with_token(login, device_id, token).wf(),
        s.with_token(login, device_id, token).users == s.users,
        0 <= i < s.with_token(login, device_id, token).tokens.len(),
        s.with_token(login, device_id, token).tokens[i] == (TokenEntry { token, login, device_id }),
        s.has_pair(login, device_id) ==> s.with_token(login, device_id, token).tokens.len() == s.tokens.len(),
        !s.has_pair(login, device_id) ==> s.with_token(login, device_id, token).tokens.len() == s.tokens.len() + 1,
        forall|k: int|
            0 <= k < s.with_token(login, device_id, token).tokens.len() && k != i ==> k < s.tokens.len()
                && #[trigger] s.with_token(login, device_id, token).tokens[k] == s.tokens[k],
{
    let r = s.with_token(login, device_id, token);
    let t = TokenEntry { token, login, device_id };
    let i = if s.has_pair(login, device_id) {
        choose|i: int| 0 <= i < s.tokens.len() && #[trigger] pair_matches(s.tokens[i], login, device_id)
    } else {
        s.tokens.len() as int
    };
    assert forall|a: int, b: int|
        0 <= a < r.tokens.len() && 0 <= b < r.tokens.len() && a != b implies #[trigger] r.tokens[a].token
            != #[trigger] r.tokens[b].token && !pair_matches(r.tokens[a], r.tokens[b].login, r.tokens[b].device_id) by {
        if a == i {
            assert(s.tokens[b].token != token);
            if b < s.tokens.len() && !s.has_pair(login, device_id) {
                assert(!pair_matches(s.tokens[b], login, device_id));
            }
        } else if b == i {
            assert(s.tokens[a].token != token);
            if a < s.tokens.len() && !s.has_pair(login, device_id) {
                assert(!pair_matches(s.tokens[a], login, device_id));
            }
        } else {
            assert(r.tokens[a] == s.tokens[a]);
            assert(r.tokens[b] == s.tokens[b]);
        }
    }
    i
}

/// Logging in twice from the same device, each time with a fresh token value: the
/// two values differ, the pair still has exactly one row, which holds the second
/// value, and the first value is no longer stored anywhere.
pub proof fn law_reissue_same_device(
    s: StoreView,
    login: Seq<char>,
    device_id: Seq<char>,
    first: Seq<char>,
    second: Seq<char>,
)
    requires
        s.wf(),
        !s.token_in_use(first),
        !s.with_token(login, device_id, first).token_in_use(second),
    ensures
        first != second,
        ({
            let s2 = s.with_token(login, device_id, first).with_token(login, device_id, second);
            &&& s2.wf()
            &&& s2.tokens.len() == s.with_token(login, device_id, first).tokens.len()
            &&& exists|i: int| 0 <= i < s2.tokens.len() && #[trigger] pair_matches(s2.tokens[i], login, device_id)
            &&& forall|i: int, j: int|
                0 <= i < s2.tokens.len() && 0 <= j < s2.tokens.len() && #[trigger] pair_matches(
                    s2.tokens[i],
                    login,
                    device_id,
                ) && #[trigger] pair_matches(s2.tokens[j], login, device_id) ==> i == j
            &&& forall|i: int|
                0 <= i < s2.tokens.len() && #[trigger] pair_matches(s2.tokens[i], login, device_id)
                    ==> s2.tokens[i].token == second
            &&& !s2.token_in_use(first)
        }),
{
    let s1 = s.with_token(login, device_id, first);
    let i1 = lemma_with_token(s, login, device_id, first);
    assert(s1.tokens[i1].token == first);
    assert(pair_matches(s1.tokens[i1], login, device_id));
    assert(s1.has_pair(login, device_id));
    let s2 = s1.with_token(login, device_id, second);
    let i2 = lemma_with_token(s1, login, device_id, second);
    assert(pair_matches(s2.tokens[i2], login, device_id));
    assert forall|i: int| 0 <= i < s2.tokens.len() && #[trigger] pair_matches(s2.tokens[i], login, device_id) implies s2.tokens[i].token
        == second by {
        if i != i2 {
            // two rows of s2 would hold the pair, which s2.wf() rules out
            assert(pair_matches(s2.tokens[i2], s2.tokens[i].login, s2.tokens[i].device_id));
        }
    }
    assert forall|k: int| 0 <= k < s2.tokens.len() implies #[trigger] s2.tokens[k].token != first by {
        if k != i2 {
            assert(s2.tokens[k] == s1.tokens[k]);
            if k != i1 {
                assert(s1.tokens[k].token != s1.tokens[i1].token);
            } else {
                assert(pair_matches(s1.tokens[k], login, device_id));
            }
        }
    }
}

/// A user added under a login that was not stored can then log in with the password
/// it was given, and receives the role it was given.
pub proof fn law_registered_user_can_log_in(s: StoreView, login: Seq<char>, password: Seq<char>, admin: bool)
    requires
        s.wf(),
        !s.has_login(login),
    ensures
        s.with_user(login, password, admin).wf(),
        s.with_user(login, password, admin).has_login(login),
        s.with_user(login, password, admin).credentials_role(login, password) == Some(role_of(admin)),
{
    let s2 = s.with_user(login, password, admin);
    let n = s.users.len() as int;
    assert(s2.users[n].login == login);
    assert(user_matches(s2.users[n], login, password));
    let c = choose|c: int| 0 <= c < s2.users.len() && #[trigger] user_matches(s2.users[c], login, password);
    if c != n {
        assert(s2.users[c] == s.users[c]);
        assert(s.users[c].login == login);
    }
    assert forall|i: int, j: int|
        0 <= i < s2.users.len() && 0 <= j < s2.users.len() && i != j implies #[trigger] s2.users[i].login
            != #[trigger] s2.users[j].login by {
        if i < n && j < n {
            assert(s2.users[i] == s.users[i]);
            assert(s2.users[j] == s.users[j]);
        } else if i < n {
            assert(s2.users[i] == s.users[i]);
            assert(s.users[i].login != login);
        } else {
            assert(s2.users[j] == s.users[j]);
            assert(s.users[j].login != login);
        }
    }
}

/// A token issued from one device resolves, from that device, to the role of its
/// owner, and resolves to nothing when presented from any other device.
pub proof fn law_token_bound_to_device(
    s: StoreView,
    login: Seq<char>,
    device_id: Seq<char>,
    token: Seq<char>,
    other_device: Seq<char>,
)
    requires
        s.wf(),
        !s.token_in_use(token),
        other_device != device_id,
    ensures
        s.with_token(login, device_id, token).resolved_role(token, other_device).is_none(),
        forall|j: int|
            0 <= j < s.users.len() && #[trigger] s.users[j].login == login ==> s.with_token(
                login,
                device_id,
                token,
            ).resolved_role(token, device_id) == Some(role_of(s.users[j].admin)),
{
    let r = s.with_token(login, device_id, token);
    let i = lemma_with_token(s, login, device_id, token);
    assert forall|k: int| 0 <= k < r.tokens.len() && #[trigger] r.tokens[k].token == token implies k == i by {
        if k != i {
            assert(r.tokens[k] == s.tokens[k]);
        }
    }
    assert forall|a: int, b: int|
        0 <= a < r.tokens.len() && 0 <= b < r.users.len() && #[trigger] token_matches(r.tokens[a], token, other_device)
            implies !(#[trigger] r.users[b].login == r.tokens[a].login) by {
        assert(r.tokens[a].token == token);
        assert(a == i);
    }
    assert forall|j: int|
        0 <= j < s.users.len() && #[trigger] s.users[j].login == login implies r.resolved_role(token, device_id)
            == Some(role_of(s.users[j].admin)) by {
        assert(token_matches(r.tokens[i], token, device_id));
        assert(r.users[j].login == r.tokens[i].login);
        let (ci, cj) = choose|ci: int, cj: int|
            0 <= ci < r.tokens.len() && 0 <= cj < r.users.len() && #[trigger] token_matches(
                r.tokens[ci],
                token,
                device_id,
            ) && #[trigger] r.users[cj].login == r.tokens[ci].login;
        assert(r.tokens[ci].token == token);
        assert(ci == i);
        assert(r.users[cj].login == r.users[j].login);
    }
}

/// Seeding the administrative account twice is the same as seeding it once, and
/// seeding leaves an already stored login's row untouched.
pub proof fn law_seed_idempotent(s: StoreView, login: Seq<char>, password: Seq<char>)
    requires
        s.wf(),
    ensures
        s.seeded(login, password).wf(),
        s.seeded(login, password).seeded(login, password) == s.seeded(login, password),
        s.has_login(login) ==> s.seeded(login, password) == s,
        s.seeded(login, password).users.len() <= s.users.len() + 1,
{
    if !s.has_login(login) {
        law_registered_user_can_log_in(s, login, password, true);
    }
}

} // verus!
