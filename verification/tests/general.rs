use art::{Art, LedgerError, PeerCall};
use std::collections::HashMap;

const INIT_ART_BALANCE: &str = "1000000000";
const HOUR: u64 = 3600 * 1_000_000_000;

fn to_yocto(tokens: &str) -> u128 {
    tokens.parse::<u128>().unwrap() * 10u128.pow(24)
}

/// The paired stablecoin ledger, in process: it mints and burns on request and
/// calls back into the collateral ledger after a burn.
struct Ausd {
    balances: HashMap<String, u128>,
    total_supply: u128,
}

impl Ausd {
    fn get_balance(&self, account_id: &str) -> u128 {
        *self.balances.get(account_id).unwrap_or(&0)
    }

    fn get_total_supply(&self) -> u128 {
        self.total_supply
    }

    fn mint(&mut self, account_id: &str, amount: u128) {
        *self.balances.entry(account_id.to_string()).or_insert(0) += amount;
        self.total_supply += amount;
    }

    fn burn(&mut self, account_id: &str, amount: u128) -> bool {
        let balance = self.get_balance(account_id);
        if balance < amount {
            return false;
        }
        self.balances.insert(account_id.to_string(), balance - amount);
        self.total_supply -= amount;
        true
    }

    fn transfer(&mut self, from: &str, to: &str, amount: u128) -> bool {
        if !self.burn(from, amount) {
            return false;
        }
        self.mint(to, amount);
        true
    }
}

/// Two ledgers and a clock that advances by one block of an hour per call.
struct World {
    art: Art,
    ausd: Ausd,
    now: u64,
}

impl World {
    fn master(&self) -> String {
        "root".to_string()
    }

    fn produce_blocks(&mut self, blocks: u64) {
        self.now += blocks * HOUR;
    }

    /// Sends `call` to the stablecoin ledger and runs the callback it owes.
    fn settle(&mut self, call: PeerCall) -> bool {
        match call {
            PeerCall::Mint { account_id, amount } => {
                self.ausd.mint(&account_id, amount);
                true
            }
            PeerCall::BurnToUnstake { account_id, burn_amount, unstake_amount } => {
                self.ausd.burn(&account_id, burn_amount)
                    && self
                        .art
                        .unstake("ausd".to_string(), self.now, account_id, unstake_amount)
                        .is_ok()
            }
            PeerCall::BurnToBuyAsset { account_id, burn_amount, asset, asset_amount } => {
                self.ausd.burn(&account_id, burn_amount)
                    && self
                        .art
                        .buy_asset_callback("ausd".to_string(), account_id, asset, asset_amount)
                        .is_ok()
            }
            PeerCall::BuyAusd { new_owner_id, amount } => {
                self.ausd.mint(&new_owner_id, amount);
                true
            }
            PeerCall::SellAusd { seller_id, amount } => self.ausd.burn(&seller_id, amount),
        }
    }

    fn submit_price(&mut self, price: &str) {
        self.produce_blocks(1);
        let master = self.master();
        self.art.submit_price(master, price.to_string()).unwrap();
    }

    fn submit_asset_price(&mut self, asset: &str, price: &str) {
        self.produce_blocks(1);
        let master = self.master();
        self.art.submit_asset_price(master, asset.to_string(), price.to_string()).unwrap();
    }

    fn stake_and_mint(&mut self, caller: &str, amount: String) -> bool {
        self.produce_blocks(1);
        match self.art.stake_and_mint(caller.to_string(), self.now, amount) {
            Ok(call) => self.settle(call),
            Err(_) => false,
        }
    }

    fn burn_to_unstake(&mut self, caller: &str, amount: String) -> bool {
        self.produce_blocks(1);
        match self.art.burn_to_unstake(caller.to_string(), amount) {
            Ok(call) => self.settle(call),
            Err(_) => false,
        }
    }

    fn transfer(&mut self, caller: &str, to: &str, amount: String) -> bool {
        self.produce_blocks(1);
        self.art.transfer(caller.to_string(), to.to_string(), amount).is_ok()
    }

    fn refresh_reward(&mut self, caller: &str) -> Result<bool, LedgerError> {
        self.produce_blocks(1);
        self.art.refresh_reward(caller.to_string(), self.now)
    }
}

fn init() -> World {
    let initial_balance = to_yocto(INIT_ART_BALANCE);
    let now = 1_600_000_000 * 1_000_000_000;
    let art =
        Art::new("root".to_string(), initial_balance.to_string(), "ausd".to_string(), now).unwrap();
    World { art, ausd: Ausd { balances: HashMap::new(), total_supply: 0 }, now }
}

#[test]
fn test_initial_issue() {
    let mut w = init();
    let master = w.master();
    let deposit_amount = (to_yocto(INIT_ART_BALANCE) / 2).to_string();
    w.submit_price("2000000000"); // every art is $20
    let res = w.stake_and_mint(&master, deposit_amount);
    assert!(res);
    let total_supply = w.ausd.get_total_supply();
    assert_eq!(total_supply, (to_yocto(INIT_ART_BALANCE) / 2 * 20 / 5));
    let master_ausd_balance = w.ausd.get_balance(&master);
    assert_eq!(total_supply, master_ausd_balance);
    let master_unstaked_art_balance = w.art.get_unstaked_balance(master.clone());
    assert_eq!(master_unstaked_art_balance, (to_yocto(INIT_ART_BALANCE) / 2).to_string());
    let master_staked_art_balance = w.art.get_staked_balance(master.clone());
    assert_eq!(master_staked_art_balance, (to_yocto(INIT_ART_BALANCE) / 2).to_string());
}

#[test]
fn test_transfer_art() {
    let mut w = init();
    let master = w.master();
    let stake_amount = (to_yocto(INIT_ART_BALANCE) / 2).to_string();
    w.submit_price("2000000000"); // every art is $20
    assert!(w.stake_and_mint(&master, stake_amount));

    assert!(w.transfer(&master, "alice", to_yocto("10000").to_string()));
    let master_unstaked_art_balance = w.art.get_unstaked_balance(master.clone());
    assert_eq!(
        master_unstaked_art_balance,
        (to_yocto(INIT_ART_BALANCE) / 2 - to_yocto("10000")).to_string()
    );
    let master_staked_art_balance = w.art.get_staked_balance(master.clone());
    assert_eq!(master_staked_art_balance, (to_yocto(INIT_ART_BALANCE) / 2).to_string());

    let alice_unstaked_art_balance = w.art.get_unstaked_balance("alice".to_string());
    assert_eq!(alice_unstaked_art_balance, to_yocto("10000").to_string());

    let alice_staked_art_balance = w.art.get_staked_balance("alice".to_string());
    assert_eq!(alice_staked_art_balance, (to_yocto("0")).to_string());

    assert!(w.transfer("alice", "bob", to_yocto("1000").to_string()));

    let alice_unstaked_art_balance = w.art.get_unstaked_balance("alice".to_string());
    assert_eq!(alice_unstaked_art_balance, to_yocto("9000").to_string());

    let bob_unstaked_art_balance = w.art.get_unstaked_balance("bob".to_string());
    assert_eq!(bob_unstaked_art_balance, to_yocto("1000").to_string());
}

#[test]
fn test_transfer_agov() {
    let mut w = init();
    let master = w.master();
    let stake_amount = (to_yocto(INIT_ART_BALANCE) / 2).to_string();
    w.submit_price("2000000000"); // every token is $20
    assert!(w.stake_and_mint(&master, stake_amount));

    assert!(w.transfer(&master, "alice", to_yocto("10000").to_string()));
    let master_unstaked_balance = w.art.get_unstaked_balance(master.clone());
    assert_eq!(
        master_unstaked_balance,
        (to_yocto(INIT_ART_BALANCE) / 2 - to_yocto("10000")).to_string()
    );
    let master_staked_balance = w.art.get_staked_balance(master.clone());
    assert_eq!(master_staked_balance, (to_yocto(INIT_ART_BALANCE) / 2).to_string());

    let alice_unstaked_balance = w.art.get_unstaked_balance("alice".to_string());
    assert_eq!(alice_unstaked_balance, to_yocto("10000").to_string());

    let alice_staked_balance = w.art.get_staked_balance("alice".to_string());
    assert_eq!(alice_staked_balance, (to_yocto("0")).to_string());

    assert!(w.transfer("alice", "bob", to_yocto("1000").to_string()));

    let alice_unstaked_balance = w.art.get_unstaked_balance("alice".to_string());
    assert_eq!(alice_unstaked_balance, to_yocto("9000").to_string());

    let bob_unstaked_balance = w.art.get_unstaked_balance("bob".to_string());
    assert_eq!(bob_unstaked_balance, to_yocto("1000").to_string());
}

#[test]
fn test_mint_ausd() {
    let mut w = init();
    let master = w.master();
    let stake_amount = (to_yocto(INIT_ART_BALANCE) / 2).to_string();
    w.submit_price("2000000000"); // every art is $20
    assert!(w.stake_and_mint(&master, stake_amount));

    assert!(w.transfer(&master, "alice", to_yocto("10000").to_string()));

    let res = w.stake_and_mint("alice", to_yocto("10000").to_string());
    assert!(res);
    let total_supply = w.ausd.get_total_supply();
    assert_eq!(total_supply, ((to_yocto(INIT_ART_BALANCE) / 2 + to_yocto("10000")) * 20 / 5));

    let alice_ausd_balance = w.ausd.get_balance("alice");
    assert_eq!(to_yocto("10000") * 20 / 5, alice_ausd_balance);
    let alice_unstaked_art_balance = w.art.get_unstaked_balance("alice".to_string());
    assert_eq!(alice_unstaked_art_balance, (to_yocto("0")).to_string());
    let alice_staked_art_balance = w.art.get_staked_balance("alice".to_string());
    assert_eq!(alice_staked_art_balance, (to_yocto("10000")).to_string());

    assert!(!w.transfer("alice", "bob", to_yocto("1000").to_string()));

    // Alice can use her ausd freely
    assert!(w.ausd.transfer("alice", "bob", to_yocto("30000")));
    let alice_ausd_balance = w.ausd.get_balance("alice");
    assert_eq!(to_yocto("10000") * 20 / 5 - to_yocto("30000"), alice_ausd_balance);
    let bob_ausd_balance = w.ausd.get_balance("bob");
    assert_eq!(to_yocto("30000"), bob_ausd_balance);
}

#[test]
fn test_burn_unstake() {
    let mut w = init();
    let master = w.master();
    let stake_amount = (to_yocto(INIT_ART_BALANCE) / 2).to_string();
    w.submit_price("2000000000"); // every art is $20
    assert!(w.stake_and_mint(&master, stake_amount));

    assert!(w.transfer(&master, "alice", to_yocto("10000").to_string()));

    assert!(w.stake_and_mint("alice", to_yocto("10000").to_string()));
    let r = w.burn_to_unstake("alice", to_yocto("10000").to_string());
    println!("{:?}", r);
    assert!(r);

    let alice_ausd_balance = w.ausd.get_balance("alice");
    assert_eq!(to_yocto("0"), alice_ausd_balance);
    let alice_unstaked_art_balance = w.art.get_unstaked_balance("alice".to_string());
    assert_eq!(alice_unstaked_art_balance, (to_yocto("10000")).to_string());
    let alice_staked_art_balance = w.art.get_staked_balance("alice".to_string());
    assert_eq!(alice_staked_art_balance, (to_yocto("0")).to_string());
}

#[test]
fn test_unstake_when_price_change() {
    let mut w = init();
    let master = w.master();
    let stake_amount = (to_yocto(INIT_ART_BALANCE) / 2).to_string();
    w.submit_price("2000000000"); // every art is $20
    assert!(w.stake_and_mint(&master, stake_amount));

    assert!(w.transfer(&master, "alice", to_yocto("10000").to_string()));

    assert!(w.stake_and_mint("alice", to_yocto("10000").to_string()));

    let alice_ausd_balance = w.ausd.get_balance("alice");
    println!("{:?}", alice_ausd_balance);

    // price of art rise, ausd/art falls

    w.submit_price("4000000000"); // every art is now $40

    let r = w.burn_to_unstake("alice", to_yocto("5000").to_string());
    println!("{:?}", r);
    assert!(r);

    // alice restake her art
    assert!(w.stake_and_mint("alice", to_yocto("5000").to_string()));
    let alice_ausd_balance = w.ausd.get_balance("alice");
    assert_eq!(to_yocto("5000") * 40 / 5, alice_ausd_balance);

    // now price goes down
    w.submit_price("2000000000"); // every art is $20

    // now bob stake and mint
    assert!(w.transfer(&master, "bob", to_yocto("10000").to_string()));
    assert!(w.stake_and_mint("bob", to_yocto("10000").to_string()));
    let bob_ausd_balance = w.ausd.get_balance("bob");
    assert_eq!(to_yocto("10000") * 20 / 5, bob_ausd_balance);
}

#[test]
fn test_exchange_ausd_abtc() {
    let mut w = init();
    let master = w.master();
    let stake_amount = (to_yocto(INIT_ART_BALANCE) / 2).to_string();
    w.submit_price("2000000000"); // every art is $20
    w.submit_asset_price("aBTC", "3000000000000");
    assert!(w.stake_and_mint(&master, stake_amount));

    assert!(w.transfer(&master, "alice", to_yocto("10000").to_string()));

    assert!(w.stake_and_mint("alice", to_yocto("10000").to_string()));
    let call = w
        .art
        .buy_asset_with_ausd("alice".to_string(), "aBTC".to_string(), to_yocto("1").to_string())
        .unwrap();
    assert!(w.settle(call));

    let alice_ausd_balance = w.ausd.get_balance("alice");
    assert_eq!(to_yocto("10000"), alice_ausd_balance);
    let alice_abtc_balance = w.art.get_asset_balance("alice".to_string(), "aBTC".to_string());
    assert_eq!(alice_abtc_balance, to_yocto("1").to_string());

    w.submit_asset_price("aBTC", "6000000000000");

    let call = w
        .art
        .sell_asset_to_ausd("alice".to_string(), "aBTC".to_string(), to_yocto("1").to_string())
        .unwrap();
    assert!(w.settle(call));

    let alice_ausd_balance = w.ausd.get_balance("alice");
    assert_eq!(to_yocto("70000"), alice_ausd_balance);
    let alice_abtc_balance = w.art.get_asset_balance("alice".to_string(), "aBTC".to_string());
    assert_eq!(alice_abtc_balance, to_yocto("0").to_string());
}

#[test]
fn test_buy_ausd_with_near() {
    let mut w = init();
    let master = w.master();
    let stake_amount = (to_yocto(INIT_ART_BALANCE) / 2).to_string();
    w.submit_price("2000000000"); // every art is $20
    w.submit_asset_price("aNEAR", "500000000"); // 1 NEAR = 5 ausd
    assert!(w.stake_and_mint(&master, stake_amount));

    let call = w.art.buy_ausd_with_near("alice".to_string(), to_yocto("100")).unwrap();
    assert!(w.settle(call));
    let alice_ausd_balance = w.ausd.get_balance("alice");
    assert_eq!(to_yocto("500"), alice_ausd_balance);
}

#[test]
fn test_buy_art_with_near() {
    let mut w = init();
    let master = w.master();
    let stake_amount = (to_yocto(INIT_ART_BALANCE) / 2).to_string();
    w.submit_price("2000000000"); // every art is $20
    w.submit_asset_price("aNEAR", "500000000"); // 1 NEAR = 5 ausd
    assert!(w.stake_and_mint(&master, stake_amount));

    w.art.buy_art_with_near("alice".to_string(), to_yocto("100")).unwrap();

    let alice_unstaked_art_balance = w.art.get_unstaked_balance("alice".to_string());
    assert_eq!(alice_unstaked_art_balance, (to_yocto("25")).to_string());
}

#[test]
fn test_staking_reward() {
    let mut w = init();
    let master = w.master();
    let stake_amount = (to_yocto(INIT_ART_BALANCE) / 2).to_string();
    w.submit_price("2000000000"); // every art is $20
    assert!(w.stake_and_mint(&master, stake_amount));

    assert!(w.transfer(&master, "alice", to_yocto("30000").to_string()));

    let res = w.stake_and_mint("alice", to_yocto("10000").to_string());
    assert!(res);
    let total_supply = w.ausd.get_total_supply();
    assert_eq!(total_supply, ((to_yocto(INIT_ART_BALANCE) / 2 + to_yocto("10000")) * 20 / 5));

    let alice_ausd_balance = w.ausd.get_balance("alice");
    assert_eq!(to_yocto("10000") * 20 / 5, alice_ausd_balance);
    let alice_unstaked_art_balance = w.art.get_unstaked_balance("alice".to_string());
    assert_eq!(alice_unstaked_art_balance, (to_yocto("20000")).to_string());
    let alice_staked_art_balance = w.art.get_staked_balance("alice".to_string());
    assert_eq!(alice_staked_art_balance, (to_yocto("10000")).to_string());

    w.produce_blocks(24);
    let reward_paid_at = w.art.get_reward_paid_at("alice".to_string());

    let a = w.refresh_reward("alice");
    println!("{:?}", a);
    assert!(a.is_ok());
    let alice_staked_art_balance = w.art.get_staked_balance("alice".to_string());
    let alice_staked_art_balance = alice_staked_art_balance.parse::<u128>().unwrap();
    assert!(alice_staked_art_balance > (to_yocto("10000")));
    let reward_paid_at2 = w.art.get_reward_paid_at("alice".to_string());
    assert!(reward_paid_at2 > reward_paid_at);

    let a = w.refresh_reward("alice");
    println!("{:?}", a);
    assert!(a.is_ok());
    let alice_staked_art_balance2 = w.art.get_staked_balance("alice".to_string());
    let alice_staked_art_balance2 = alice_staked_art_balance2.parse::<u128>().unwrap();
    assert_eq!(alice_staked_art_balance, alice_staked_art_balance2);
    let reward_paid_at3 = w.art.get_reward_paid_at("alice".to_string());
    assert!(reward_paid_at3 == reward_paid_at2);

    w.produce_blocks(29 * 24);
    let alice_staked_art_balance3 = w.art.get_staked_balance("alice".to_string());
    let alice_staked_art_balance3 = alice_staked_art_balance3.parse::<u128>().unwrap();
    // should not change before refresh
    assert_eq!(alice_staked_art_balance3, alice_staked_art_balance2);

    let res = w.stake_and_mint("alice", to_yocto("10000").to_string());
    println!("=== {:?} {:?}", res, w.ausd.get_balance("alice"));
    assert!(res);

    let alice_staked_art_balance4 = w.art.get_staked_balance("alice".to_string());
    let alice_staked_art_balance4 = alice_staked_art_balance4.parse::<u128>().unwrap();
    // should be more than 10000 + alice_staked_art_balance3 because staking also refresh the reward
    assert!(alice_staked_art_balance4 > to_yocto("10000") + alice_staked_art_balance3);

    let reward_paid_at4 = w.art.get_reward_paid_at("alice".to_string());
    // new stake also update the reward paid at, so you have to wait another 24 hours since your last stake, not your last time received stake reward, to get new stake reward
    assert!(reward_paid_at4 > reward_paid_at3 + 29 * 86400 * 1_000_000_000);
    assert!(reward_paid_at4 < reward_paid_at3 + 30 * 86400 * 1_000_000_000);

    let r = w.burn_to_unstake("alice", to_yocto("10000").to_string());
    println!("{:?}", r);
    assert!(r);
    let reward_paid_at5 = w.art.get_reward_paid_at("alice".to_string());
    assert!(reward_paid_at5 == reward_paid_at4);

    assert!(w.transfer(&master, "bob", to_yocto("10000").to_string()));

    // stake 3 month, 15 days, check reward is correct
    let res = w.stake_and_mint("bob", to_yocto("10000").to_string());
    assert!(res);
    w.produce_blocks((3 * 30 + 15) * 24);
    let _ = w.refresh_reward("bob");
    let bob_staked_art_balance = w.art.get_staked_balance("bob".to_string());
    let bob_staked_art_balance = bob_staked_art_balance.parse::<u128>().unwrap();

    assert_eq!(10277963087960000000000000000u128, bob_staked_art_balance);
}

#[test]
fn burn_without_stablecoin_leaves_the_stake_locked() {
    let mut w = init();
    let master = w.master();
    w.submit_price("2000000000");
    assert!(w.transfer(&master, "alice", to_yocto("10000").to_string()));
    assert!(w.stake_and_mint("alice", to_yocto("10000").to_string()));
    assert!(w.ausd.transfer("alice", "bob", to_yocto("1")));
    assert!(!w.burn_to_unstake("alice", to_yocto("10000").to_string()));
    assert_eq!(w.art.get_staked_balance("alice".to_string()), to_yocto("10000").to_string());
    assert_eq!(w.art.get_unstaked_balance("alice".to_string()), "0");
}

#[test]
fn stake_then_unstake_restores_both_balances() {
    let mut w = init();
    let master = w.master();
    w.submit_price("2000000000");
    assert!(w.transfer(&master, "alice", to_yocto("30000").to_string()));
    let minted = match w.art.stake_and_mint("alice".to_string(), w.now, to_yocto("7").to_string()) {
        Ok(PeerCall::Mint { account_id, amount }) => {
            assert_eq!(account_id, "alice");
            amount
        }
        other => panic!("unexpected {:?}", other),
    };
    assert_eq!(minted, to_yocto("7") * 20 / 5);
    w.ausd.mint("alice", minted);
    let call = w.art.burn_to_unstake("alice".to_string(), to_yocto("7").to_string()).unwrap();
    assert_eq!(
        call,
        PeerCall::BurnToUnstake {
            account_id: "alice".to_string(),
            burn_amount: minted,
            unstake_amount: to_yocto("7"),
        }
    );
    assert!(w.settle(call));
    assert_eq!(w.art.get_unstaked_balance("alice".to_string()), to_yocto("30000").to_string());
    assert_eq!(w.art.get_staked_balance("alice".to_string()), "0");
    assert_eq!(w.ausd.get_balance("alice"), 0);
}

#[test]
fn operations_fail_while_the_price_is_missing() {
    let mut w = init();
    let master = w.master();
    assert_eq!(
        w.art.stake_and_mint(master.clone(), w.now, "5".to_string()),
        Err(LedgerError::OraclePriceMissing)
    );
    assert_eq!(
        w.art.burn_to_unstake(master.clone(), "5".to_string()),
        Err(LedgerError::OraclePriceMissing)
    );
    assert_eq!(
        w.art.exchange_art_to_ausd(master.clone(), "5".to_string()),
        Err(LedgerError::OraclePriceMissing)
    );
    assert_eq!(
        w.art.exchange_ausd_to_art(master.clone(), "5".to_string()),
        Err(LedgerError::OraclePriceMissing)
    );
    assert_eq!(
        w.art.sell_asset_to_ausd(master.clone(), "aBTC".to_string(), "5".to_string()),
        Err(LedgerError::OraclePriceMissing)
    );
    assert_eq!(
        w.art.buy_asset_with_ausd(master.clone(), "aBTC".to_string(), "5".to_string()),
        Err(LedgerError::OraclePriceMissing)
    );
    assert_eq!(
        w.art.buy_art_with_near(master.clone(), 5),
        Err(LedgerError::OraclePriceMissing)
    );
    assert_eq!(
        w.art.buy_ausd_with_near(master.clone(), 5),
        Err(LedgerError::OraclePriceMissing)
    );
    w.submit_asset_price("aNEAR", "500000000");
    assert_eq!(
        w.art.buy_art_with_near(master.clone(), 5),
        Err(LedgerError::OraclePriceMissing)
    );
    assert_eq!(
        w.art.buy_ausd_with_near(master.clone(), 5),
        Err(LedgerError::OraclePriceMissing)
    );
    assert_eq!(w.art.get_staked_balance(master.clone()), "0");
}

#[test]
fn native_deposits_of_zero_are_rejected() {
    let mut w = init();
    w.submit_price("2000000000");
    w.submit_asset_price("aNEAR", "500000000");
    assert_eq!(w.art.buy_art_with_near("alice".to_string(), 0), Err(LedgerError::ZeroAmount));
    assert_eq!(w.art.buy_ausd_with_near("alice".to_string(), 0), Err(LedgerError::ZeroAmount));
}

#[test]
fn buying_collateral_debits_the_owner() {
    let mut w = init();
    let master = w.master();
    w.submit_price("2000000000");
    w.submit_asset_price("aNEAR", "500000000");
    w.art.buy_art_with_near("alice".to_string(), 7).unwrap();
    // 7 * 5 / 20 = 1.75, rounded down
    assert_eq!(w.art.get_unstaked_balance("alice".to_string()), "1");
    assert_eq!(
        w.art.get_unstaked_balance(master.clone()),
        (to_yocto(INIT_ART_BALANCE) - 1).to_string()
    );
    assert_eq!(w.art.get_total_supply(), to_yocto(INIT_ART_BALANCE).to_string());
    // The owner buying from itself moves nothing.
    w.art.buy_art_with_near(master.clone(), 400).unwrap();
    assert_eq!(
        w.art.get_unstaked_balance(master.clone()),
        (to_yocto(INIT_ART_BALANCE) - 1).to_string()
    );
}

#[test]
fn buying_more_collateral_than_the_owner_holds_underflows() {
    let mut art = Art::new("root".to_string(), "10".to_string(), "ausd".to_string(), 0).unwrap();
    art.submit_price("root".to_string(), "100000000".to_string()).unwrap();
    art.submit_asset_price("root".to_string(), "aNEAR".to_string(), "100000000".to_string())
        .unwrap();
    assert_eq!(art.buy_art_with_near("alice".to_string(), 11), Err(LedgerError::Underflow));
    assert_eq!(art.get_unstaked_balance("alice".to_string()), "0");
    art.buy_art_with_near("alice".to_string(), 10).unwrap();
    assert_eq!(art.get_unstaked_balance("alice".to_string()), "10");
    assert_eq!(art.get_unstaked_balance("root".to_string()), "0");
}

#[test]
fn exchange_collateral_for_stablecoin_takes_the_fee() {
    let mut w = init();
    let master = w.master();
    w.submit_price("2000000000");
    assert!(w.transfer(&master, "alice", "1000".to_string()));
    let call = w.art.exchange_art_to_ausd("alice".to_string(), "100".to_string()).unwrap();
    // 100 * 20 * 997 / 1000 = 1994
    assert_eq!(call, PeerCall::BuyAusd { new_owner_id: "alice".to_string(), amount: 1994 });
    assert!(w.settle(call));
    assert_eq!(w.art.get_unstaked_balance("alice".to_string()), "900");
    assert_eq!(
        w.art.get_unstaked_balance(master.clone()),
        (to_yocto(INIT_ART_BALANCE) - 900).to_string()
    );
    assert_eq!(
        w.art.exchange_art_to_ausd("alice".to_string(), "901".to_string()),
        Err(LedgerError::Underflow)
    );
    let call = w.art.exchange_ausd_to_art("alice".to_string(), "1994".to_string()).unwrap();
    assert_eq!(call, PeerCall::SellAusd { seller_id: "alice".to_string(), amount: 1994 });
    assert!(w.settle(call));
    // 1994 * 997 / 1000 / 20 = 99.4009, rounded down
    assert_eq!(w.art.get_unstaked_balance("alice".to_string()), "999");
    assert_eq!(w.ausd.get_balance("alice"), 0);
    assert_eq!(w.art.get_total_supply(), to_yocto(INIT_ART_BALANCE).to_string());
}

#[test]
fn asset_sales_check_the_asset_balance() {
    let mut w = init();
    w.submit_asset_price("aBTC", "3000000000000");
    assert_eq!(
        w.art.sell_asset_to_ausd("alice".to_string(), "aBTC".to_string(), "1".to_string()),
        Err(LedgerError::Underflow)
    );
    assert_eq!(
        w.art.buy_asset_callback("alice".to_string(), "alice".to_string(), "aBTC".to_string(), 1),
        Err(LedgerError::Unauthorized)
    );
    w.art
        .buy_asset_callback("ausd".to_string(), "alice".to_string(), "aBTC".to_string(), 3)
        .unwrap();
    assert_eq!(
        w.art.buy_asset_callback(
            "ausd".to_string(),
            "alice".to_string(),
            "aBTC".to_string(),
            u128::MAX
        ),
        Err(LedgerError::Overflow)
    );
    assert_eq!(w.art.get_asset_balance("alice".to_string(), "aBTC".to_string()), "3");
    let call = w
        .art
        .sell_asset_to_ausd("alice".to_string(), "aBTC".to_string(), "2".to_string())
        .unwrap();
    assert_eq!(call, PeerCall::Mint { account_id: "alice".to_string(), amount: 60000 });
    assert_eq!(w.art.get_asset_balance("alice".to_string(), "aBTC".to_string()), "1");
    assert_eq!(
        w.art.buy_asset_with_ausd("alice".to_string(), "aBTC".to_string(), "x".to_string()),
        Err(LedgerError::ParseError)
    );
}

#[test]
fn conversions_that_exceed_128_bits_overflow() {
    let mut w = init();
    let master = w.master();
    let huge = u128::MAX.to_string();
    w.art.submit_price(master.clone(), huge.clone()).unwrap();
    w.art.submit_asset_price(master.clone(), "aBTC".to_string(), huge.clone()).unwrap();
    assert_eq!(
        w.art.stake_and_mint(master.clone(), w.now, to_yocto("1").to_string()),
        Err(LedgerError::Overflow)
    );
    assert_eq!(w.art.get_staked_balance(master.clone()), "0");
    assert_eq!(
        w.art.burn_to_unstake(master.clone(), to_yocto("1").to_string()),
        Err(LedgerError::Overflow)
    );
    assert_eq!(
        w.art.buy_asset_with_ausd(master.clone(), "aBTC".to_string(), to_yocto("1").to_string()),
        Err(LedgerError::Overflow)
    );
}

#[test]
fn unused_native_sales_change_nothing() {
    let mut w = init();
    w.art.sell_art_to_near();
    w.art.sell_ausd_to_near();
    assert_eq!(w.art.get_total_supply(), to_yocto(INIT_ART_BALANCE).to_string());
}
