//! Account identifiers and ordered lists of them.

use vstd::prelude::*;
use crate::model::names;
use crate::types::{AccountId, AccountName};

verus! {

/// Whether a string is a well-formed account identifier by the rules of the
/// hosting platform.
pub uninterp spec fn valid_account_id(id: Seq<char>) -> bool;

/// Tests an account identifier against the platform's rules.
///
/// Trusted: calls `near_sdk::env::is_valid_account_id` on the bytes of the
/// string. That function looks at nothing but the bytes it is given, so its
/// answer is the same for the same string wherever it is asked.
#[verifier::external_body]
pub(crate) fn is_valid_account_id(id: &AccountId) -> (valid: bool)
    ensures
        valid == valid_account_id(id@),
{
    near_sdk::env::is_valid_account_id(id.as_bytes())
}

/// Position of the first occurrence of `account` in `list`.
pub open spec fn first_index(list: Seq<AccountName>, account: AccountName) -> int {
    choose|i: int| is_first_index(list, account, i)
}

/// Whether `i` is the position of the first occurrence of `account`.
pub open spec fn is_first_index(list: Seq<AccountName>, account: AccountName, i: int) -> bool {
    &&& 0 <= i < list.len()
    &&& list[i] == account
    &&& forall|j: int| 0 <= j < i ==> list[j] != account
}

/// `list` without the first occurrence of `account`.
pub open spec fn without(list: Seq<AccountName>, account: AccountName) -> Seq<AccountName> {
    if list.contains(account) {
        list.remove(first_index(list, account))
    } else {
        list
    }
}

/// An account has one first occurrence at most.
pub proof fn lemma_first_index_is_unique(list: Seq<AccountName>, account: AccountName, i: int)
    requires
        is_first_index(list, account, i),
    ensures
        list.contains(account),
        first_index(list, account) == i,
        without(list, account) == list.remove(i),
{
    let k = first_index(list, account);
    assert(is_first_index(list, account, k));
    if k < i {
        assert(list[k] != account);
    } else if i < k {
        assert(list[i] != account);
    }
}

/// In a list without repetitions, removing an account takes it out for good
/// and leaves the list without repetitions.
pub proof fn lemma_without_removes(list: Seq<AccountName>, account: AccountName)
    requires
        list.no_duplicates(),
    ensures
        !without(list, account).contains(account),
        without(list, account).no_duplicates(),
        forall|other: AccountName|
            other != account ==> (#[trigger] without(list, account).contains(other)
                <==> list.contains(other)),
{
    if list.contains(account) {
        let k = choose|i: int| 0 <= i < list.len() && list[i] == account;
        assert(is_first_index(list, account, k));
        let i = first_index(list, account);
        let rest = list.remove(i);
        assert forall|j: int| 0 <= j < rest.len() implies rest[j] != account by {
            if j < i {
                assert(rest[j] == list[j]);
            } else {
                assert(rest[j] == list[j + 1]);
            }
        }
        assert forall|a: int, b: int| 0 <= a < rest.len() && 0 <= b < rest.len() && a != b implies rest[a]
            != rest[b] by {
            let a0 = if a < i { a } else { a + 1 };
            let b0 = if b < i { b } else { b + 1 };
            assert(rest[a] == list[a0]);
            assert(rest[b] == list[b0]);
        }
        assert forall|other: AccountName| other != account implies (#[trigger] rest.contains(other)
            <==> list.contains(other)) by {
            if rest.contains(other) {
                let j = choose|j: int| 0 <= j < rest.len() && rest[j] == other;
                let j0 = if j < i { j } else { j + 1 };
                assert(list[j0] == other);
            }
            if list.contains(other) {
                let j = choose|j: int| 0 <= j < list.len() && list[j] == other;
                let j1 = if j < i { j } else { j - 1 };
                assert(rest[j1] == other);
            }
        }
    }
}

/// Adding an account that is not yet in a list without repetitions leaves
/// the list without repetitions.
pub proof fn lemma_push_keeps_distinct(list: Seq<AccountName>, account: AccountName)
    requires
        list.no_duplicates(),
        !list.contains(account),
    ensures
        list.push(account).no_duplicates(),
{
    let more = list.push(account);
    assert forall|a: int, b: int| 0 <= a < more.len() && 0 <= b < more.len() && a != b implies more[a]
        != more[b] by {
        if a < list.len() && b < list.len() {
        } else if a < list.len() {
            assert(list.contains(list[a]));
        } else {
            assert(list.contains(list[b]));
        }
    }
}

/// `list` followed by the accounts of `more` that are not yet in it, each
/// of them once, in the order in which they first occur.
pub open spec fn merged(list: Seq<AccountName>, more: Seq<AccountName>) -> Seq<AccountName>
    decreases more.len(),
{
    if more.len() == 0 {
        list
    } else {
        let front = merged(list, more.drop_last());
        if front.contains(more.last()) {
            front
        } else {
            front.push(more.last())
        }
    }
}

/// Merging keeps the first list at the front, adds no repetition, and holds
/// exactly the accounts of the two lists.
pub proof fn lemma_merged(list: Seq<AccountName>, more: Seq<AccountName>)
    requires
        list.no_duplicates(),
    ensures
        merged(list, more).no_duplicates(),
        merged(list, more).len() >= list.len(),
        forall|i: int| 0 <= i < list.len() ==> #[trigger] merged(list, more)[i] == list[i],
        forall|account: AccountName|
            #[trigger] merged(list, more).contains(account) <==> list.contains(account)
                || more.contains(account),
    decreases more.len(),
{
    if more.len() > 0 {
        let rest = more.drop_last();
        let last = more.last();
        lemma_merged(list, rest);
        let front = merged(list, rest);
        if !front.contains(last) {
            lemma_push_keeps_distinct(front, last);
        }
        let all = merged(list, more);
        assert forall|account: AccountName| #[trigger]
            all.contains(account) <==> list.contains(account) || more.contains(account) by {
            if all.contains(account) {
                let j = choose|j: int| 0 <= j < all.len() && all[j] == account;
                if j < front.len() {
                    assert(front.contains(account));
                    if rest.contains(account) {
                        let k = choose|k: int| 0 <= k < rest.len() && rest[k] == account;
                        assert(more[k] == account);
                    }
                } else {
                    assert(more[more.len() - 1] == account);
                }
            }
            if more.contains(account) {
                let k = choose|k: int| 0 <= k < more.len() && more[k] == account;
                if k < rest.len() {
                    assert(rest[k] == account);
                    assert(front.contains(account));
                    let j = choose|j: int| 0 <= j < front.len() && front[j] == account;
                    assert(all[j] == account);
                } else {
                    if front.contains(last) {
                    } else {
                        assert(all[all.len() - 1] == account);
                    }
                }
            }
            if list.contains(account) {
                assert(front.contains(account));
                let j = choose|j: int| 0 <= j < front.len() && front[j] == account;
                assert(all[j] == account);
            }
        }
    } else {
    }
}

/// Looks for an account in a list.
pub fn find_account(list: &Vec<AccountId>, account: &AccountId) -> (found: Option<usize>)
    ensures
        match found {
            Some(i) => is_first_index(names(list@), account@, i as int),
            None => !names(list@).contains(account@),
        },
{
    let mut i: usize = 0;
    while i < list.len()
        invariant
            i <= list.len(),
            forall|j: int| 0 <= j < i ==> list[j]@ != account@,
        decreases list.len() - i,
    {
        if list[i] == *account {
            return Some(i);
        }
        i += 1;
    }
    assert forall|j: int| 0 <= j < names(list@).len() implies names(list@)[j] != account@ by {
        assert(names(list@)[j] == list[j]@);
    }
    None
}

/// Whether a list holds an account.
pub fn holds_account(list: &Vec<AccountId>, account: &AccountId) -> (held: bool)
    ensures
        held == names(list@).contains(account@),
{
    match find_account(list, account) {
        Some(i) => {
            assert(names(list@)[i as int] == account@);
            true
        },
        None => false,
    }
}

} // verus!
