//! Account records and the operations that keep the account list
//! consistent: lookup by UUID or case-folded username, upsert keyed by
//! UUID, removal that also clears a removed active account, and token
//! expiry. Reading and writing the accounts file belongs to the shell.

use vstd::prelude::*;
use crate::text::lower_of;
use crate::text::now_epoch_secs;
use crate::text::str_eq;
use crate::text::to_lowercase;

verus! {

/// The account list and which account is active, by UUID.
#[derive(Debug, Clone)]
pub struct Accounts {
    pub active: Option<String>,
    pub accounts: Vec<Account>,
}

/// One signed-in account.
#[derive(Debug, Clone)]
pub struct Account {
    pub uuid: String,
    pub username: String,
    pub xuid: Option<String>,
    pub msa: MsaTokens,
    pub minecraft: MinecraftTokens,
}

/// The OAuth tokens of the platform account.
#[derive(Debug, Clone)]
pub struct MsaTokens {
    pub access_token: String,
    pub refresh_token: String,
    pub expires_at: u64,
}

/// The game session token.
#[derive(Debug, Clone)]
pub struct MinecraftTokens {
    pub access_token: String,
    pub expires_at: u64,
}

impl MsaTokens {
    /// Whether the token is expired at the given clock reading, with a
    /// sixty-second safety margin.
    pub fn is_expired_at(&self, now: u64) -> (r: bool)
        ensures
            r == (now + 60 >= self.expires_at),
    {
        let threshold: u64 = if self.expires_at >= 60 {
            self.expires_at - 60
        } else {
            0
        };
        now >= threshold
    }

    /// Whether the token is expired now. Consults the system clock; the
    /// exact rule lives in `is_expired_at`.
    pub fn is_expired(&self) -> bool {
        let now = now_epoch_secs();
        self.is_expired_at(now)
    }
}

impl MinecraftTokens {
    /// Whether the token is expired at the given clock reading, with a
    /// sixty-second safety margin.
    pub fn is_expired_at(&self, now: u64) -> (r: bool)
        ensures
            r == (now + 60 >= self.expires_at),
    {
        let threshold: u64 = if self.expires_at >= 60 {
            self.expires_at - 60
        } else {
            0
        };
        now >= threshold
    }

    /// Whether the token is expired now. Consults the system clock; the
    /// exact rule lives in `is_expired_at`.
    pub fn is_expired(&self) -> bool {
        let now = now_epoch_secs();
        self.is_expired_at(now)
    }
}

/// An account matches an id that is its UUID, or its username ignoring
/// case.
pub open spec fn account_matches(a: Account, id: Seq<char>) -> bool {
    a.uuid@ == id || lower_of(a.username@) == lower_of(id)
}

/// Whether an account matches the id by UUID or case-folded username.
/// `id_lower` must be the case-folded id.
pub fn matches_account(account: &Account, id: &str, id_lower: &str) -> (r: bool)
    requires
        id_lower@ == lower_of(id@),
    ensures
        r == account_matches(*account, id@),
{
    if str_eq(account.uuid.as_str(), id) {
        true
    } else {
        let user_lower = to_lowercase(account.username.as_str());
        str_eq(user_lower.as_str(), id_lower)
    }
}

/// The index of the first account matching the id, if any.
pub fn find_account(accounts: &Accounts, id: &str) -> (r: Option<usize>)
    ensures
        match r {
            Some(i) => i < accounts.accounts@.len() && account_matches(
                accounts.accounts@[i as int],
                id@,
            ) && forall|k: int|
                0 <= k < i ==> !account_matches(#[trigger] accounts.accounts@[k], id@),
            None => forall|k: int|
                0 <= k < accounts.accounts@.len() ==> !account_matches(
                    #[trigger] accounts.accounts@[k],
                    id@,
                ),
        },
{
    let id_lower = to_lowercase(id);
    let n = accounts.accounts.len();
    let mut i: usize = 0;
    while i < n
        invariant
            i <= n,
            n == accounts.accounts@.len(),
            id_lower@ == lower_of(id@),
            forall|k: int| 0 <= k < i ==> !account_matches(#[trigger] accounts.accounts@[k], id@),
        decreases n - i,
    {
        if matches_account(&accounts.accounts[i], id, id_lower.as_str()) {
            return Some(i);
        }
        i = i + 1;
    }
    None
}

/// Borrow the first account matching the id mutably, if any.
pub fn find_account_mut<'a>(accounts: &'a mut Accounts, id: &str) -> (r: Option<&'a mut Account>)
    ensures
        match r {
            Some(a) => exists|i: int|
                0 <= i < old(accounts).accounts@.len() && account_matches(
                    #[trigger] old(accounts).accounts@[i],
                    id@,
                ) && *a == old(accounts).accounts@[i] && final(accounts).accounts@ == old(
                    accounts,
                ).accounts@.update(i, *final(a)) && final(accounts).active == old(accounts).active,
            None => *final(accounts) == *old(accounts) && forall|k: int|
                0 <= k < old(accounts).accounts@.len() ==> !account_matches(
                    #[trigger] old(accounts).accounts@[k],
                    id@,
                ),
        },
{
    match find_account(accounts, id) {
        Some(i) => Some(&mut accounts.accounts[i]),
        None => None,
    }
}

/// A field-for-field copy of an account.
fn copy_account(a: &Account) -> (o: Account)
    ensures
        o == *a,
{
    Account {
        uuid: a.uuid.clone(),
        username: a.username.clone(),
        xuid: crate::model::copy_opt_string(&a.xuid),
        msa: MsaTokens {
            access_token: a.msa.access_token.clone(),
            refresh_token: a.msa.refresh_token.clone(),
            expires_at: a.msa.expires_at,
        },
        minecraft: MinecraftTokens {
            access_token: a.minecraft.access_token.clone(),
            expires_at: a.minecraft.expires_at,
        },
    }
}

/// The account list after an upsert: the first account with the same UUID
/// is replaced in place, else the account is appended.
pub open spec fn upsert_account_seq(s: Seq<Account>, a: Account) -> Seq<Account>
    decreases s.len(),
{
    if s.len() == 0 {
        seq![a]
    } else if s[0].uuid@ == a.uuid@ {
        seq![a] + s.drop_first()
    } else {
        seq![s[0]] + upsert_account_seq(s.drop_first(), a)
    }
}

proof fn lemma_upsert_account_found(s: Seq<Account>, a: Account, i: int)
    requires
        0 <= i < s.len(),
        forall|k: int| 0 <= k < i ==> (#[trigger] s[k]).uuid@ != a.uuid@,
        s[i].uuid@ == a.uuid@,
    ensures
        upsert_account_seq(s, a) == s.update(i, a),
    decreases i,
{
    if i == 0 {
        assert(seq![a] + s.drop_first() =~= s.update(0, a));
    } else {
        assert forall|k: int| 0 <= k < i - 1 implies (#[trigger] s.drop_first()[k]).uuid@
            != a.uuid@ by {
            assert(s.drop_first()[k] == s[k + 1]);
        }
        lemma_upsert_account_found(s.drop_first(), a, i - 1);
        assert(seq![s[0]] + s.drop_first().update(i - 1, a) =~= s.update(i, a));
    }
}

proof fn lemma_upsert_account_missing(s: Seq<Account>, a: Account)
    requires
        forall|k: int| 0 <= k < s.len() ==> (#[trigger] s[k]).uuid@ != a.uuid@,
    ensures
        upsert_account_seq(s, a) == s.push(a),
    decreases s.len(),
{
    if s.len() == 0 {
        assert(upsert_account_seq(s, a) =~= s.push(a));
    } else {
        assert forall|k: int|
            0 <= k < s.drop_first().len() implies (#[trigger] s.drop_first()[k]).uuid@
            != a.uuid@ by {
            assert(s.drop_first()[k] == s[k + 1]);
        }
        lemma_upsert_account_missing(s.drop_first(), a);
        assert(seq![s[0]] + s.drop_first().push(a) =~= s.push(a));
    }
}

/// Replace the account with the same UUID in place, else append; the
/// active selection is untouched.
pub fn upsert_account(accounts: &mut Accounts, account: Account)
    ensures
        final(accounts).accounts@ == upsert_account_seq(old(accounts).accounts@, account),
        final(accounts).active == old(accounts).active,
{
    let n = accounts.accounts.len();
    let mut i: usize = 0;
    while i < n
        invariant
            i <= n,
            n == accounts.accounts@.len(),
            *accounts == *old(accounts),
            forall|k: int|
                0 <= k < i ==> (#[trigger] accounts.accounts@[k]).uuid@ != account.uuid@,
        decreases n - i,
    {
        if str_eq(accounts.accounts[i].uuid.as_str(), account.uuid.as_str()) {
            proof {
                lemma_upsert_account_found(accounts.accounts@, account, i as int);
            }
            accounts.accounts.set(i, account);
            return ;
        }
        i = i + 1;
    }
    proof {
        lemma_upsert_account_missing(accounts.accounts@, account);
    }
    accounts.accounts.push(account);
}

/// The account list with every account matching the id removed.
pub open spec fn remove_account_seq(s: Seq<Account>, id: Seq<char>) -> Seq<Account>
    decreases s.len(),
{
    if s.len() == 0 {
        Seq::empty()
    } else if account_matches(s[0], id) {
        remove_account_seq(s.drop_first(), id)
    } else {
        seq![s[0]] + remove_account_seq(s.drop_first(), id)
    }
}

/// Some removed account carried this UUID.
pub open spec fn removed_uuid(s: Seq<Account>, id: Seq<char>, uuid: Seq<char>) -> bool {
    exists|k: int|
        0 <= k < s.len() && account_matches(#[trigger] s[k], id) && s[k].uuid@ == uuid
}

/// Remove every account matching the id; when the active account is among
/// the removed, the active selection is cleared. Reports whether anything
/// was removed.
pub fn remove_account(accounts: &mut Accounts, id: &str) -> (removed: bool)
    ensures
        final(accounts).accounts@ == remove_account_seq(old(accounts).accounts@, id@),
        removed == exists|k: int|
            0 <= k < old(accounts).accounts@.len() && account_matches(
                #[trigger] old(accounts).accounts@[k],
                id@,
            ),
        final(accounts).active == (match old(accounts).active {
            Option::Some(u) => if removed_uuid(old(accounts).accounts@, id@, u@) {
                Option::<String>::None
            } else {
                old(accounts).active
            },
            Option::None => Option::<String>::None,
        }),
{
    let id_lower = to_lowercase(id);
    let n = accounts.accounts.len();
    let mut kept: Vec<Account> = Vec::new();
    let mut clear_active: bool = false;
    let mut any: bool = false;
    let mut i: usize = 0;
    let ghost whole = accounts.accounts@;
    proof {
        assert(whole.subrange(0, n as int) =~= whole);
        assert(kept@ + remove_account_seq(whole.subrange(0, n as int), id@) =~= remove_account_seq(
            whole,
            id@,
        ));
    }
    while i < n
        invariant
            i <= n,
            n == whole.len(),
            accounts.accounts@ == whole,
            accounts.active == old(accounts).active,
            id_lower@ == lower_of(id@),
            remove_account_seq(whole, id@) == kept@ + remove_account_seq(
                whole.subrange(i as int, n as int),
                id@,
            ),
            any == exists|k: int|
                0 <= k < i && account_matches(#[trigger] whole[k], id@),
            clear_active == (match old(accounts).active {
                Option::Some(u) => removed_uuid(whole.subrange(0, i as int), id@, u@),
                Option::None => false,
            }),
        decreases n - i,
    {
        proof {
            assert(whole.subrange(i as int, n as int)[0] == whole[i as int]);
            assert(whole.subrange(i as int, n as int).drop_first() =~= whole.subrange(
                i + 1 as int,
                n as int,
            ));
            assert(forall|k: int|
                0 <= k < i + 1 ==> #[trigger] whole.subrange(0, i + 1 as int)[k] == whole[k]);
            assert(forall|k: int|
                0 <= k < i ==> #[trigger] whole.subrange(0, i as int)[k] == whole[k]);
        }
        let is_match = matches_account(&accounts.accounts[i], id, id_lower.as_str());
        if is_match {
            any = true;
            match &accounts.active {
                Some(u) => {
                    if str_eq(accounts.accounts[i].uuid.as_str(), u.as_str()) {
                        clear_active = true;
                        proof {
                            assert(account_matches(whole.subrange(0, i + 1 as int)[i as int], id@));
                        }
                    }
                },
                None => {},
            }
            proof {
                if !clear_active {
                    assert(match old(accounts).active {
                        Option::Some(u) => !removed_uuid(whole.subrange(0, i + 1 as int), id@, u@),
                        Option::None => true,
                    }) by {
                        match old(accounts).active {
                            Option::Some(u) => {
                                if removed_uuid(whole.subrange(0, i + 1 as int), id@, u@) {
                                    let w = choose|k: int|
                                        0 <= k < i + 1 && account_matches(
                                            #[trigger] whole.subrange(0, i + 1 as int)[k],
                                            id@,
                                        ) && whole.subrange(0, i + 1 as int)[k].uuid@ == u@;
                                    if w < i {
                                        assert(removed_uuid(whole.subrange(0, i as int), id@, u@));
                                    }
                                }
                            },
                            Option::None => {},
                        }
                    }
                }
            }
        } else {
            let a = copy_account(&accounts.accounts[i]);
            proof {
                assert(kept@.push(a) + remove_account_seq(
                    whole.subrange(i + 1 as int, n as int),
                    id@,
                ) =~= kept@ + (seq![whole[i as int]] + remove_account_seq(
                    whole.subrange(i + 1 as int, n as int),
                    id@,
                )));
                match old(accounts).active {
                    Option::Some(u) => {
                        if removed_uuid(whole.subrange(0, i + 1 as int), id@, u@) {
                            let w = choose|k: int|
                                0 <= k < i + 1 && account_matches(
                                    #[trigger] whole.subrange(0, i + 1 as int)[k],
                                    id@,
                                ) && whole.subrange(0, i + 1 as int)[k].uuid@ == u@;
                            if w < i {
                                assert(removed_uuid(whole.subrange(0, i as int), id@, u@));
                            }
                        }
                    },
                    Option::None => {},
                }
            }
            kept.push(a);
        }
        i = i + 1;
    }
    proof {
        assert(remove_account_seq(whole.subrange(n as int, n as int), id@) =~= Seq::<
            Account,
        >::empty());
        assert(kept@ + Seq::<Account>::empty() =~= kept@);
        assert(whole.subrange(0, n as int) =~= whole);
    }
    accounts.accounts = kept;
    if clear_active {
        accounts.active = None;
    }
    any
}

/// Make the first account matching the id active, by its UUID; report
/// whether one was found.
pub fn set_active(accounts: &mut Accounts, id: &str) -> (found: bool)
    ensures
        final(accounts).accounts@ == old(accounts).accounts@,
        found == exists|k: int|
            0 <= k < old(accounts).accounts@.len() && account_matches(
                #[trigger] old(accounts).accounts@[k],
                id@,
            ),
        found ==> exists|k: int|
            0 <= k < old(accounts).accounts@.len() && account_matches(
                #[trigger] old(accounts).accounts@[k],
                id@,
            ) && (final(accounts).active matches Some(u) && u@ == old(
                accounts,
            ).accounts@[k].uuid@) && (forall|j: int|
                0 <= j < k ==> !account_matches(#[trigger] old(accounts).accounts@[j], id@)),
        !found ==> final(accounts).active == old(accounts).active,
{
    match find_account(accounts, id) {
        Some(i) => {
            let uuid = accounts.accounts[i].uuid.clone();
            accounts.active = Some(uuid);
            true
        },
        None => false,
    }
}

} // verus!
