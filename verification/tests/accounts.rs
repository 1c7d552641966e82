use shard::accounts::Account;
use shard::accounts::Accounts;
use shard::accounts::MinecraftTokens;
use shard::accounts::MsaTokens;
use shard::accounts::find_account;
use shard::accounts::find_account_mut;
use shard::accounts::remove_account;
use shard::accounts::set_active;
use shard::accounts::upsert_account;

fn account(uuid: &str, username: &str) -> Account {
    Account {
        uuid: uuid.to_string(),
        username: username.to_string(),
        xuid: None,
        msa: MsaTokens {
            access_token: "SECRET-REDACTED".to_string(),
            refresh_token: "SECRET-REDACTED".to_string(),
            expires_at: 1_000,
        },
        minecraft: MinecraftTokens { access_token: "SECRET-REDACTED".to_string(), expires_at: 1_000 },
    }
}

#[test]
fn find_matches_uuid_or_name_case_insensitively() {
    let accounts = Accounts {
        active: None,
        accounts: vec![account("u-1", "Steve"), account("u-2", "Alex")],
    };
    assert_eq!(find_account(&accounts, "u-2"), Some(1));
    assert_eq!(find_account(&accounts, "steve"), Some(0));
    assert_eq!(find_account(&accounts, "ALEX"), Some(1));
    assert_eq!(find_account(&accounts, "nobody"), None);
}

#[test]
fn upsert_replaces_by_uuid() {
    let mut accounts = Accounts { active: None, accounts: vec![account("u-1", "Steve")] };
    upsert_account(&mut accounts, account("u-1", "SteveRenamed"));
    assert_eq!(accounts.accounts.len(), 1);
    assert_eq!(accounts.accounts[0].username, "SteveRenamed");
    upsert_account(&mut accounts, account("u-2", "Alex"));
    assert_eq!(accounts.accounts.len(), 2);
}

#[test]
fn remove_clears_active_when_it_goes() {
    let mut accounts = Accounts {
        active: Some("u-1".to_string()),
        accounts: vec![account("u-1", "Steve"), account("u-2", "Alex")],
    };
    assert!(remove_account(&mut accounts, "steve"));
    assert_eq!(accounts.accounts.len(), 1);
    assert_eq!(accounts.active, None);

    let mut accounts = Accounts {
        active: Some("u-2".to_string()),
        accounts: vec![account("u-1", "Steve"), account("u-2", "Alex")],
    };
    assert!(remove_account(&mut accounts, "u-1"));
    assert_eq!(accounts.active, Some("u-2".to_string()));
    assert!(!remove_account(&mut accounts, "nobody"));
}

#[test]
fn set_active_uses_the_uuid() {
    let mut accounts = Accounts {
        active: None,
        accounts: vec![account("u-1", "Steve"), account("u-2", "Alex")],
    };
    assert!(set_active(&mut accounts, "alex"));
    assert_eq!(accounts.active, Some("u-2".to_string()));
    assert!(!set_active(&mut accounts, "nobody"));
    assert_eq!(accounts.active, Some("u-2".to_string()));
}

#[test]
fn token_expiry_has_a_minute_margin() {
    let msa = MsaTokens {
        access_token: "SECRET-REDACTED".to_string(),
        refresh_token: "SECRET-REDACTED".to_string(),
        expires_at: 1_000,
    };
    assert!(!msa.is_expired_at(900));
    assert!(msa.is_expired_at(940));
    assert!(msa.is_expired_at(1_000));
    let mc = MinecraftTokens { access_token: "SECRET-REDACTED".to_string(), expires_at: 1_000 };
    assert!(!mc.is_expired_at(939));
    assert!(mc.is_expired_at(940));
}

#[test]
fn find_account_mut_edits_in_place() {
    let mut accounts = Accounts {
        active: None,
        accounts: vec![account("u-1", "Steve"), account("u-2", "Alex")],
    };
    {
        let a = find_account_mut(&mut accounts, "alex").expect("found");
        a.username = "AlexRenamed".to_string();
    }
    assert_eq!(accounts.accounts[1].username, "AlexRenamed");
    assert!(find_account_mut(&mut accounts, "nobody").is_none());
}
