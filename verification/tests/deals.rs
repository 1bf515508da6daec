use onlinerpg::deals::{
    band_invariant_holds, buy_price, deal_cost, deal_half_band_pct, granted_message,
    resident_half_band_pct, sell_payout, DealBook, DealEntry, DealKey, DealKind, DealLedgers,
    DealRejection, DEAL_COOLDOWN_MS, DEAL_TTL_MS,
};
use onlinerpg::game_state::{GameState, OfferOutcome, OfferParty, OfferWorld, SalaryRecipient};

#[test]
fn haggling_band_invariant_boundary() {
    assert!(band_invariant_holds(40));
    assert!(band_invariant_holds(59));
    assert!(!band_invariant_holds(60));
}

#[test]
fn haggling_band_widens_with_cha_within_limits() {
    assert_eq!(deal_half_band_pct(10), 10);
    assert_eq!(deal_half_band_pct(3), 5);
    assert_eq!(deal_half_band_pct(13), 16);
    assert_eq!(deal_half_band_pct(18), 25);
    assert_eq!(deal_half_band_pct(255), 25);
}

#[test]
fn resident_band_is_wider_and_clamped() {
    assert_eq!(resident_half_band_pct(3), 10);
    assert_eq!(resident_half_band_pct(255), 50);
    assert!(resident_half_band_pct(10) >= deal_half_band_pct(10));
}

#[test]
fn buy_price_applies_modifier_and_floors_at_one() {
    assert_eq!(buy_price(100, 0), 100);
    assert_eq!(buy_price(100, -10), 90);
    assert_eq!(buy_price(100, 25), 125);
    assert_eq!(buy_price(1, -50), 1);
    assert_eq!(buy_price(7, -10), 6);
}

#[test]
fn sell_payout_applies_rate_and_modifier() {
    assert_eq!(sell_payout(100, 40, 0), 40);
    assert_eq!(sell_payout(100, 40, 25), 50);
    assert_eq!(sell_payout(1, 40, 0), 1);
}

#[test]
fn deal_cost_is_discount_or_bonus() {
    assert_eq!(deal_cost(10000, 40, DealKind::Buy, -25), 2500);
    assert_eq!(deal_cost(10000, 40, DealKind::Buy, 10), 0);
    assert_eq!(deal_cost(10000, 40, DealKind::Sell, 25), 1000);
    assert_eq!(deal_cost(10000, 40, DealKind::Sell, -10), 0);
}

#[test]
fn no_money_pump_at_widest_band() {
    for base in [80i64, 100, 999, 10000] {
        let cheapest_buy = buy_price(base, -25);
        let best_sell = sell_payout(base, 59, 25);
        assert!(best_sell < cheapest_buy, "base {base}");
    }
}

#[test]
fn granted_message_names_the_clamp() {
    assert_eq!(granted_message(-10, -10), "deal granted");
    assert_eq!(granted_message(-50, -10), "deal granted, but clamped from -50% to -10%");
    assert_eq!(granted_message(30, 25), "deal granted, but clamped from 30% to 25%");
}

#[test]
fn rejection_messages_carry_the_reason() {
    assert!(DealRejection::CooldownActive.message().contains("cooldown"));
    assert!(DealRejection::PlayerLimitReached.message().contains("discount limit"));
    assert_eq!(
        DealRejection::NotHaggleable("not for sale".to_string()).message(),
        "offer rejected: not for sale"
    );
}

#[test]
fn ledgers_charge_cooldown_and_caps() {
    let mut ledgers = DealLedgers::new(5);
    let rica = "Rica".to_string();
    let buyer = "buyer".to_string();
    assert_eq!(ledgers.charge(&rica, &buyer, 2500, 1_000), Ok(()));
    assert_eq!(ledgers.charge(&rica, &buyer, 100, 2_000), Err(DealRejection::CooldownActive));
    let later = 1_000 + DEAL_COOLDOWN_MS;
    assert_eq!(ledgers.charge(&rica, &buyer, 2500, later), Err(DealRejection::PlayerLimitReached));
    assert_eq!(ledgers.charge(&rica, &buyer, 1500, later), Ok(()));
}

#[test]
fn ledgers_roll_over_on_a_new_day() {
    let mut ledgers = DealLedgers::new(5);
    let rica = "Rica".to_string();
    let buyer = "buyer".to_string();
    assert_eq!(ledgers.charge(&rica, &buyer, 4000, 0), Ok(()));
    ledgers.roll_over_if_needed(5);
    assert_eq!(ledgers.player_received.get(&buyer), 4000);
    ledgers.roll_over_if_needed(6);
    assert_eq!(ledgers.game_day, 6);
    assert_eq!(ledgers.player_received.get(&buyer), 0);
    assert_eq!(ledgers.npc_granted.get(&rica), 0);
}

#[test]
fn trader_budget_is_shared_across_players() {
    let mut ledgers = DealLedgers::new(1);
    let rica = "Rica".to_string();
    let mut now = 0u64;
    for i in 0..3 {
        let p = format!("p{i}");
        assert_eq!(ledgers.charge(&rica, &p, 3000, now), Ok(()));
        now += 1;
    }
    assert_eq!(
        ledgers.charge(&rica, &"p3".to_string(), 1001, now),
        Err(DealRejection::TraderBudgetExhausted)
    );
}

fn key(player: u64, item: &str, kind: DealKind) -> DealKey {
    DealKey {
        player_id: player,
        merchant_name: "Rica".to_string(),
        item_def_id: item.to_string(),
        kind,
    }
}

#[test]
fn deal_book_take_is_single_use_and_restore_undoes_it() {
    let mut book = DealBook::new();
    let entry = DealEntry { modifier_pct: -10, expires_at_ms: 10_000 };
    book.insert(key(1, "iron_sword", DealKind::Buy), entry);
    assert_eq!(book.take(&key(1, "iron_sword", DealKind::Buy), 5_000), Some(entry));
    assert_eq!(book.take(&key(1, "iron_sword", DealKind::Buy), 5_000), None);
    book.restore(key(1, "iron_sword", DealKind::Buy), Some(entry));
    assert_eq!(book.take(&key(1, "iron_sword", DealKind::Buy), 5_000), Some(entry));
}

#[test]
fn deal_book_expired_deals_are_not_taken() {
    let mut book = DealBook::new();
    book.insert(key(1, "iron_sword", DealKind::Buy), DealEntry { modifier_pct: -10, expires_at_ms: 10_000 });
    assert_eq!(book.take(&key(1, "iron_sword", DealKind::Buy), 10_000), None);
}

#[test]
fn deal_book_lists_live_deals_of_a_player_and_trader() {
    let mut book = DealBook::new();
    book.insert(key(1, "iron_sword", DealKind::Buy), DealEntry { modifier_pct: -10, expires_at_ms: 10_500 });
    book.insert(key(1, "dagger", DealKind::Sell), DealEntry { modifier_pct: 5, expires_at_ms: 3_000 });
    book.insert(key(2, "dagger", DealKind::Buy), DealEntry { modifier_pct: -5, expires_at_ms: 10_000 });
    let live = book.active_for(1, &"Rica".to_string(), 5_000);
    assert_eq!(live.len(), 1);
    assert_eq!(live[0].item_def_id, "iron_sword");
    assert_eq!(live[0].modifier_pct, -10);
    assert_eq!(live[0].expires_in_secs, 5);
}

fn haggle_world(cha: u8, base_price: i64, now_ms: u64) -> OfferWorld {
    OfferWorld {
        npc: Some(OfferParty { name: "Rica".to_string(), is_official_npc: true }),
        target: Some(OfferParty { name: "buyer".to_string(), is_official_npc: false }),
        in_sight: true,
        trader_known: true,
        base_price: Some(base_price),
        haggle: Ok((40, deal_half_band_pct(cha))),
        now_ms,
        game_day: 3,
    }
}

#[test]
fn offer_deal_clamps_modifier_to_cha_band() {
    let mut gs = GameState::new(3);
    let out = gs.offer_deal(10, 20, &"iron_sword".to_string(), DealKind::Buy, -50, &haggle_world(10, 10000, 1_000));
    assert_eq!(
        out,
        OfferOutcome::Accepted { applied_modifier_pct: -10, cost: 1000, expires_at_ms: 1_000 + DEAL_TTL_MS }
    );
    let live = gs.active_deals_for(20, &"Rica".to_string(), 2_000);
    assert_eq!(live.len(), 1);
    assert_eq!(live[0].modifier_pct, -10);
}

#[test]
fn offer_deal_enforces_cooldown_and_player_budget() {
    let mut gs = GameState::new(3);
    let sword = "iron_sword".to_string();
    let first = gs.offer_deal(10, 20, &sword, DealKind::Buy, -25, &haggle_world(18, 10000, 1_000));
    assert!(matches!(first, OfferOutcome::Accepted { cost: 2500, .. }));
    let second = gs.offer_deal(10, 20, &"dagger".to_string(), DealKind::Buy, -5, &haggle_world(18, 1000, 2_000));
    assert_eq!(second, OfferOutcome::Rejected(DealRejection::CooldownActive));
    let later = 1_000 + DEAL_COOLDOWN_MS;
    let third = gs.offer_deal(10, 20, &sword, DealKind::Buy, -25, &haggle_world(18, 10000, later));
    assert_eq!(third, OfferOutcome::Rejected(DealRejection::PlayerLimitReached));
}

#[test]
fn offer_deal_refusals_in_order() {
    let mut gs = GameState::new(3);
    let sword = "iron_sword".to_string();
    let mut w = haggle_world(10, 10000, 0);
    w.npc = Some(OfferParty { name: "Bob".to_string(), is_official_npc: false });
    assert_eq!(gs.offer_deal(1, 2, &sword, DealKind::Buy, -5, &w), OfferOutcome::Ignored);
    let mut w = haggle_world(10, 10000, 0);
    w.target = None;
    assert_eq!(gs.offer_deal(1, 2, &sword, DealKind::Buy, -5, &w), OfferOutcome::Rejected(DealRejection::TargetNotFound));
    let mut w = haggle_world(10, 10000, 0);
    w.target = Some(OfferParty { name: "Karl".to_string(), is_official_npc: true });
    assert_eq!(gs.offer_deal(1, 2, &sword, DealKind::Buy, -5, &w), OfferOutcome::Rejected(DealRejection::TargetIsNpc));
    let mut w = haggle_world(10, 10000, 0);
    w.in_sight = false;
    assert_eq!(gs.offer_deal(1, 2, &sword, DealKind::Buy, -5, &w), OfferOutcome::Rejected(DealRejection::TooFarAway));
    let mut w = haggle_world(10, 10000, 0);
    w.trader_known = false;
    assert_eq!(gs.offer_deal(1, 2, &sword, DealKind::Buy, -5, &w), OfferOutcome::Rejected(DealRejection::NothingToTrade));
    let mut w = haggle_world(10, 10000, 0);
    w.base_price = None;
    assert_eq!(gs.offer_deal(1, 2, &sword, DealKind::Buy, -5, &w), OfferOutcome::Rejected(DealRejection::NoPrice));
    let mut w = haggle_world(10, 10000, 0);
    w.haggle = Err("not haggleable".to_string());
    assert_eq!(
        gs.offer_deal(1, 2, &sword, DealKind::Buy, -5, &w),
        OfferOutcome::Rejected(DealRejection::NotHaggleable("not haggleable".to_string()))
    );
}

#[test]
fn salary_pays_once_per_day_rollover_up_to_cap() {
    let mut gs = GameState::new(0);
    gs.set_player_gold(7, 27_000);
    let karl = vec![SalaryRecipient { player_id: 7, salary_per_day: 5_000, wallet_cap: 30_000 }];
    assert!(gs.tick_npc_salaries(4, &karl).is_empty());
    assert_eq!(gs.get_player_gold(7), 27_000);
    let paid = gs.tick_npc_salaries(5, &karl);
    assert_eq!(paid.len(), 1);
    assert_eq!(paid[0].gold, 30_000);
    assert_eq!(gs.get_player_gold(7), 30_000);
    assert!(gs.tick_npc_salaries(5, &karl).is_empty());
    assert_eq!(gs.get_player_gold(7), 30_000);
}

#[test]
fn salary_never_reduces_an_above_cap_wallet() {
    let mut gs = GameState::new(0);
    gs.set_player_gold(7, 50_000);
    let karl = vec![SalaryRecipient { player_id: 7, salary_per_day: 5_000, wallet_cap: 30_000 }];
    gs.tick_npc_salaries(1, &karl);
    assert!(gs.tick_npc_salaries(2, &karl).is_empty());
    assert_eq!(gs.get_player_gold(7), 50_000);
}

#[test]
fn take_and_restore_deal_through_game_state() {
    let mut gs = GameState::new(3);
    let sword = "iron_sword".to_string();
    let rica = "Rica".to_string();
    gs.offer_deal(10, 20, &sword, DealKind::Buy, -5, &haggle_world(10, 10000, 0));
    let taken = gs.take_deal(20, &rica, &sword, DealKind::Buy, 1);
    assert_eq!(taken.map(|d| d.modifier_pct), Some(-5));
    assert_eq!(gs.take_deal(20, &rica, &sword, DealKind::Buy, 1), None);
    gs.restore_deal(20, &rica, &sword, DealKind::Buy, taken);
    assert!(gs.take_deal(20, &rica, &sword, DealKind::Buy, 1).is_some());
}
