use std::time::{Duration, UNIX_EPOCH};
use ferris_bot::clock::{elapsed_millis, millis_since_epoch, ClockError};
use ferris_bot::dispatch::{advance, backoff_delay, begin_invocation, finish_invocation, is_finished};
use ferris_bot::progression::{level_of, COOLDOWN_MS, XP_PER_MESSAGE};
use ferris_bot::store::shard_index;
use ferris_bot::{
    get_current_millis, CommandUsed, CoreError, EventKind, Funding, Item, LedgerOp, Phase,
    RetryPolicy, User, UserStore, MAX_COMMAND_HISTORY,
};

fn item(id: i32, category: &str) -> Item {
    Item::new(
        id,
        format!("item{}", id),
        String::from("an item"),
        String::from(category),
        String::from("img.png"),
        100,
        1,
    )
}

fn equipped_ids(u: &User) -> Vec<i32> {
    u.equipped.iter().map(|i| i.id).collect()
}

fn inventory_ids(u: &User) -> Vec<i32> {
    u.inventory.iter().map(|i| i.id).collect()
}

#[test]
fn new_user_is_zero_valued() {
    let u = User::new(42);
    assert_eq!(u.id, 42);
    assert_eq!(u.xp, 0);
    assert_eq!(u.messages_sent, 0);
    assert_eq!(u.last_message, 0);
    assert_eq!(u.balance, 0);
    assert_eq!(u.cash, 0);
    assert!(u.inventory.is_empty());
    assert!(u.equipped.is_empty());
    assert!(u.last_command_list.is_empty());
}

#[test]
fn item_new_keeps_fields() {
    let i = Item::new(7, "Sword".into(), "Sharp".into(), "weapon".into(), "s.png".into(), 250, 3);
    assert_eq!(i.id, 7);
    assert_eq!(i.name, "Sword");
    assert_eq!(i.description, "Sharp");
    assert_eq!(i.category, "weapon");
    assert_eq!(i.image, "s.png");
    assert_eq!(i.price, 250);
    assert_eq!(i.rarity, 3);
    let c = CommandUsed::new(3, "ping".into(), 99);
    assert_eq!((c.id, c.command.as_str(), c.timestamp), (3, "ping", 99));
}

#[test]
fn first_touch_creates_exactly_once() {
    let mut store = UserStore::new();
    let mut created = 0;
    let mut seen = Vec::new();
    for _ in 0..10 {
        let (u, c) = store.get_or_create(77);
        if c {
            created += 1;
        }
        seen.push((u.id, u.xp, u.balance, u.cash));
    }
    assert_eq!(created, 1);
    assert_eq!(store.len(), 1);
    assert!(seen.iter().all(|s| *s == (77, 0, 0, 0)));
}

#[test]
fn get_or_create_returns_existing_record() {
    let mut store = UserStore::new();
    let (mut u, created) = store.get_or_create(1);
    assert!(created);
    u.credit_cash(40).unwrap();
    store.save(u);
    let (again, created_again) = store.get_or_create(1);
    assert!(!created_again);
    assert_eq!(again.cash, 40);
}

#[test]
fn lookup_without_create_fails_not_found() {
    let store = UserStore::new();
    assert!(matches!(store.get(5), Err(CoreError::NotFound)));
    assert!(!store.contains(5));
}

#[test]
fn first_eligible_message_gives_ten_xp() {
    let mut u = User::new(1);
    assert!(u.award_message_xp(1_700_000_000_000));
    assert_eq!(u.xp, 10);
    assert_eq!(XP_PER_MESSAGE, 10);
    assert_eq!(u.messages_sent, 1);
    assert_eq!(u.last_message, 1_700_000_000_000);
    assert_eq!(level_of(0), 0);
    assert_eq!(level_of(10), 1);
    assert_eq!(u.level(), 1);
}

#[test]
fn level_curve_values() {
    assert_eq!(level_of(9), 0);
    assert_eq!(level_of(39), 1);
    assert_eq!(level_of(40), 2);
    assert_eq!(level_of(90), 3);
    assert_eq!(level_of(i32::MAX), 14654);
    let mut prev = 0;
    for xp in 0..2000 {
        let l = level_of(xp);
        assert!(l >= prev);
        prev = l;
    }
}

#[test]
fn cooldown_throttles_messages() {
    let mut u = User::new(1);
    let t1 = 1_000_000;
    assert!(u.award_message_xp(t1));
    assert!(!u.award_message_xp(t1 + COOLDOWN_MS - 1));
    assert_eq!((u.xp, u.messages_sent, u.last_message), (10, 1, t1));
    assert!(u.award_message_xp(t1 + COOLDOWN_MS));
    assert_eq!((u.xp, u.messages_sent), (20, 2));
}

#[test]
fn xp_is_held_at_the_largest_value() {
    let mut u = User::new(1);
    u.xp = i32::MAX - 3;
    assert!(u.award_message_xp(100_000));
    assert_eq!(u.xp, i32::MAX);
}

#[test]
fn deposit_from_cash_then_insufficient() {
    let mut u = User::new(1);
    u.balance = 100;
    u.cash = 50;
    assert_eq!(u.deposit(30, Funding::Cash), Ok(()));
    assert_eq!((u.balance, u.cash), (130, 20));
    assert_eq!(u.deposit(30, Funding::Cash), Err(CoreError::InsufficientCash));
    assert_eq!((u.balance, u.cash), (130, 20));
}

#[test]
fn ledger_errors_leave_record_unchanged() {
    let mut u = User::new(1);
    u.balance = 10;
    u.cash = 5;
    assert_eq!(u.deposit(0, Funding::External), Err(CoreError::InvalidAmount));
    assert_eq!(u.deposit(-4, Funding::Cash), Err(CoreError::InvalidAmount));
    assert_eq!(u.withdraw(11), Err(CoreError::InsufficientBalance));
    assert_eq!(u.debit_cash(6), Err(CoreError::InsufficientCash));
    assert_eq!(u.credit_cash(-1), Err(CoreError::InvalidAmount));
    assert_eq!(u.credit_cash(i32::MAX), Err(CoreError::InvalidAmount));
    assert_eq!((u.balance, u.cash), (10, 5));
    assert_eq!(u.deposit(7, Funding::External), Ok(()));
    assert_eq!((u.balance, u.cash), (17, 5));
    assert_eq!(u.withdraw(17), Ok(()));
    assert_eq!((u.balance, u.cash), (0, 22));
    assert_eq!(u.debit_cash(22), Ok(()));
    assert_eq!(u.cash, 0);
}

#[test]
fn ledger_sequence_never_goes_negative() {
    let mut u = User::new(1);
    let ops = [
        LedgerOp::CreditCash(25),
        LedgerOp::Deposit(30, Funding::Cash),
        LedgerOp::Deposit(20, Funding::Cash),
        LedgerOp::Withdraw(50),
        LedgerOp::Withdraw(15),
        LedgerOp::DebitCash(10),
        LedgerOp::DebitCash(1),
    ];
    let expected = [
        Ok(()),
        Err(CoreError::InsufficientCash),
        Ok(()),
        Err(CoreError::InsufficientBalance),
        Ok(()),
        Ok(()),
        Ok(()),
    ];
    for (op, want) in ops.iter().zip(expected.iter()) {
        assert_eq!(u.apply_ledger_op(*op), *want);
        assert!(u.balance >= 0 && u.cash >= 0);
    }
    assert_eq!((u.balance, u.cash), (5, 9));
}

#[test]
fn equip_replaces_same_category() {
    let mut u = User::new(1);
    u.add_item(item(1, "weapon"));
    assert_eq!(u.equip(1), Ok(()));
    assert_eq!(equipped_ids(&u), vec![1]);
    u.add_item(item(2, "weapon"));
    assert_eq!(u.equip(2), Ok(()));
    assert_eq!(equipped_ids(&u), vec![2]);
    assert_eq!(inventory_ids(&u), vec![1, 2]);
}

#[test]
fn equip_keeps_other_categories() {
    let mut u = User::new(1);
    u.add_item(item(1, "weapon"));
    u.add_item(item(2, "armor"));
    u.add_item(item(3, "weapon"));
    u.equip(1).unwrap();
    u.equip(2).unwrap();
    u.equip(3).unwrap();
    assert_eq!(equipped_ids(&u), vec![2, 3]);
    for i in 0..u.equipped.len() {
        for j in 0..u.equipped.len() {
            if i != j {
                assert_ne!(u.equipped[i].category, u.equipped[j].category);
            }
        }
    }
}

#[test]
fn equip_unowned_fails() {
    let mut u = User::new(1);
    assert_eq!(u.equip(9), Err(CoreError::ItemNotOwned));
    assert!(u.equipped.is_empty());
}

#[test]
fn unequip_keeps_inventory() {
    let mut u = User::new(1);
    u.add_item(item(4, "hat"));
    assert_eq!(u.unequip(4), Err(CoreError::ItemNotEquipped));
    u.equip(4).unwrap();
    assert_eq!(u.unequip(4), Ok(()));
    assert!(u.equipped.is_empty());
    assert_eq!(inventory_ids(&u), vec![4]);
}

#[test]
fn remove_item_takes_first_copy_and_unequips_it() {
    let mut u = User::new(1);
    u.add_item(item(5, "ring"));
    u.add_item(item(6, "hat"));
    u.add_item(item(5, "ring"));
    u.equip(5).unwrap();
    let removed = u.remove_item(5).unwrap();
    assert_eq!(removed.id, 5);
    assert_eq!(inventory_ids(&u), vec![6, 5]);
    assert!(u.equipped.is_empty());
    u.remove_item(5).unwrap();
    assert_eq!(inventory_ids(&u), vec![6]);
    assert!(u.equipped.is_empty());
    assert!(matches!(u.remove_item(5), Err(CoreError::ItemNotOwned)));
}

#[test]
fn history_is_capped_and_keeps_order() {
    let mut u = User::new(1);
    let n = MAX_COMMAND_HISTORY;
    for k in 0..(n + 1) {
        u.record(k as u64, format!("cmd{}", k), k as i64);
    }
    assert_eq!(u.last_command_list.len(), n);
    let ids: Vec<u64> = u.last_command_list.iter().map(|c| c.id).collect();
    let want: Vec<u64> = (1..(n as u64 + 1)).collect();
    assert_eq!(ids, want);
    assert_eq!(u.last_command_list[n - 1].command, format!("cmd{}", n));
}

#[test]
fn history_below_cap_keeps_everything() {
    let mut u = User::new(1);
    u.record(1, "ping".into(), 10);
    u.record(2, "age".into(), 20);
    let names: Vec<&str> = u.last_command_list.iter().map(|c| c.command.as_str()).collect();
    assert_eq!(names, vec!["ping", "age"]);
}

#[test]
fn duplicate_copies_everything() {
    let mut u = User::new(3);
    u.add_item(item(1, "weapon"));
    u.equip(1).unwrap();
    u.record(9, "help".into(), 5);
    u.credit_cash(12).unwrap();
    let c = u.duplicate();
    assert_eq!(c.id, 3);
    assert_eq!(c.cash, 12);
    assert_eq!(inventory_ids(&c), vec![1]);
    assert_eq!(equipped_ids(&c), vec![1]);
    assert_eq!(c.last_command_list[0].command, "help");
    assert_eq!(c.inventory[0].category, "weapon");
}

#[test]
fn invocation_flow_resolves_credits_logs_and_saves() {
    let mut store = UserStore::new();
    let u = begin_invocation(&mut store, 8, EventKind::Message, 1_000_000);
    assert_eq!((u.xp, u.messages_sent), (10, 1));
    let saved = finish_invocation(&mut store, u, 1, "ping".into(), 1_000_000);
    assert_eq!(saved.last_command_list.len(), 1);
    let stored = store.get(8).unwrap();
    assert_eq!(stored.xp, 10);
    assert_eq!(stored.last_command_list[0].command, "ping");
    let v = begin_invocation(&mut store, 8, EventKind::SlashCommand, 1_000_001);
    assert_eq!((v.xp, v.messages_sent), (10, 1));
    assert_eq!(store.len(), 1);
}

#[test]
fn phases_follow_the_invocation() {
    let p = RetryPolicy { max_attempts: 3, base_delay_ms: 100, max_delay_ms: 1000 };
    let mut ph = Phase::Received;
    let mut seen = vec![ph];
    while !is_finished(ph) {
        ph = advance(&p, ph, EventKind::Message, Ok(()));
        seen.push(ph);
    }
    assert_eq!(
        seen,
        vec![
            Phase::Received,
            Phase::Resolved,
            Phase::Progressed,
            Phase::Executed,
            Phase::Logged,
            Phase::Persisting(0),
            Phase::Done
        ]
    );
    assert_eq!(advance(&p, Phase::Resolved, EventKind::SlashCommand, Ok(())), Phase::Executed);
    assert_eq!(
        advance(&p, Phase::Executed, EventKind::SlashCommand, Err(CoreError::InsufficientCash)),
        Phase::Failed(CoreError::InsufficientCash)
    );
}

#[test]
fn saves_are_retried_then_given_up() {
    let p = RetryPolicy { max_attempts: 3, base_delay_ms: 100, max_delay_ms: 1000 };
    let e = Err(CoreError::StoreUnavailable);
    let k = EventKind::SlashCommand;
    assert_eq!(advance(&p, Phase::Persisting(0), k, e), Phase::Persisting(1));
    assert_eq!(advance(&p, Phase::Persisting(1), k, e), Phase::Persisting(2));
    assert_eq!(advance(&p, Phase::Persisting(2), k, e), Phase::Failed(CoreError::StoreUnavailable));
    assert_eq!(
        advance(&p, Phase::Persisting(0), k, Err(CoreError::StoreCorrupt)),
        Phase::Failed(CoreError::StoreCorrupt)
    );
    assert_eq!(advance(&p, Phase::Persisting(1), k, Ok(())), Phase::Done);
    assert!(CoreError::StoreUnavailable.retryable());
    assert!(!CoreError::NotFound.retryable());
}

#[test]
fn backoff_doubles_up_to_the_cap() {
    let p = RetryPolicy { max_attempts: 10, base_delay_ms: 100, max_delay_ms: 1000 };
    let delays: Vec<u64> = (0..6).map(|a| backoff_delay(&p, a)).collect();
    assert_eq!(delays, vec![100, 200, 400, 800, 1000, 1000]);
    let q = RetryPolicy { max_attempts: 1, base_delay_ms: 5000, max_delay_ms: 1000 };
    assert_eq!(backoff_delay(&q, 0), 1000);
}

#[test]
fn shards_route_by_id() {
    assert_eq!(shard_index(17, 4), 1);
    assert_eq!(shard_index(17, 1), 0);
    assert_eq!(shard_index(u64::MAX, 7), (u64::MAX % 7) as usize);
}

#[test]
fn clock_reading_maps_to_millis() {
    assert_eq!(millis_since_epoch(Ok(Duration::from_millis(1234))), Ok(1234));
    let before = UNIX_EPOCH - Duration::from_secs(5);
    assert_eq!(
        millis_since_epoch(before.duration_since(UNIX_EPOCH)),
        Err(ClockError::BeforeEpoch)
    );
}

#[test]
fn clock_reads_after_epoch() {
    let now = get_current_millis().unwrap();
    assert!(now > 1_600_000_000_000);
    assert_eq!(elapsed_millis(100, 350), 250);
    assert_eq!(elapsed_millis(350, 100), 0);
}

#[test]
fn load_refuses_corrupt_records() {
    let mut store = UserStore::new();
    let mut bad = User::new(2);
    bad.cash = -1;
    assert!(!bad.is_well_formed());
    assert_eq!(store.load(bad), Err(CoreError::StoreCorrupt));
    assert_eq!(store.len(), 0);

    let mut two_weapons = User::new(3);
    two_weapons.add_item(item(1, "weapon"));
    two_weapons.add_item(item(2, "weapon"));
    two_weapons.equipped.push(item(1, "weapon"));
    two_weapons.equipped.push(item(2, "weapon"));
    assert!(!two_weapons.is_well_formed());
    assert_eq!(store.load(two_weapons), Err(CoreError::StoreCorrupt));

    let mut unowned = User::new(4);
    unowned.equipped.push(item(9, "hat"));
    assert!(!unowned.is_well_formed());

    let mut good = User::new(5);
    good.add_item(item(1, "weapon"));
    good.equip(1).unwrap();
    assert!(good.is_well_formed());
    assert_eq!(store.load(good), Ok(()));
    assert!(store.contains(5));
}

#[test]
fn equipping_twice_keeps_one_copy() {
    let mut u = User::new(1);
    u.add_item(item(1, "weapon"));
    u.equip(1).unwrap();
    u.equip(1).unwrap();
    assert_eq!(equipped_ids(&u), vec![1]);
}

#[test]
fn history_at_cap_evicts_nothing() {
    let mut u = User::new(1);
    for k in 0..MAX_COMMAND_HISTORY {
        u.record(k as u64, "ping".into(), k as i64);
    }
    assert_eq!(u.last_command_list.len(), MAX_COMMAND_HISTORY);
    assert_eq!(u.last_command_list[0].id, 0);
}

#[test]
fn equip_replaces_without_growing() {
    let mut u = User::new(1);
    u.add_item(item(1, "weapon"));
    u.add_item(item(2, "armor"));
    u.add_item(item(3, "weapon"));
    u.equip(1).unwrap();
    u.equip(2).unwrap();
    assert_eq!(u.equipped.len(), 2);
    u.equip(3).unwrap();
    assert_eq!(u.equipped.len(), 2);
    assert_eq!(equipped_ids(&u), vec![2, 3]);
}

#[test]
fn equipped_copy_must_match_by_value() {
    let mut u = User::new(1);
    u.add_item(item(1, "weapon"));
    u.equipped.push(item(1, "armor"));
    assert!(!u.is_well_formed());
}
