//! The verified core of the server's game state: haggled deals and their
//! daily ledgers, player wallets and NPC salaries. The networked server
//! keeps one `GameState` behind a lock and feeds it the facts it looked up
//! in the live world (who is where, item prices, trader definitions).
use vstd::prelude::*;

use crate::deals::{
    deal_cost, deal_cost_spec, buy_price_in_range, sell_payout_in_range, clamp_spec, DealBook,
    DealEntry, DealKey, DealKeyView, DealKind, DealLedgers, DealRejection, ActiveDeal, DEAL_TTL_MS,
};

verus! {

broadcast use vstd::std_specs::hash::group_hash_axioms;


/// What the live world knows about one side of an offered deal.
pub struct OfferParty {
    pub name: String,
    pub is_official_npc: bool,
}

/// The facts of the live world that decide an offered deal: the offering
/// NPC and the target (when they are online), whether the target is within
/// the NPC's sight radius, whether the NPC has a trader definition, the
/// item's base price, the trader's haggle parameters for this item and the
/// target's CHA (sell rate and band half-width, or why it will not haggle),
/// and the current real time and game day.
pub struct OfferWorld {
    pub npc: Option<OfferParty>,
    pub target: Option<OfferParty>,
    pub in_sight: bool,
    pub trader_known: bool,
    pub base_price: Option<i64>,
    pub haggle: Result<(u32, i32), String>,
    pub now_ms: u64,
    pub game_day: i64,
}

/// What became of an offered deal.
#[derive(Debug, PartialEq, Eq)]
pub enum OfferOutcome {
    /// The offer did not come from an official NPC that is online.
    Ignored,
    /// The offer was refused.
    Rejected(DealRejection),
    /// The deal was granted at `applied_modifier_pct`, charged `cost`, and is
    /// redeemable until `expires_at_ms`.
    Accepted { applied_modifier_pct: i32, cost: i64, expires_at_ms: u64 },
}

/// An NPC due a salary: its session id, daily salary and wallet cap.
#[derive(Debug, Clone, Copy, PartialEq, Eq)]
pub struct SalaryRecipient {
    pub player_id: u64,
    pub salary_per_day: i64,
    pub wallet_cap: i64,
}

/// A salary payment: the NPC and its wallet afterwards.
#[derive(Debug, Clone, Copy, PartialEq, Eq)]
pub struct SalaryPayment {
    pub player_id: u64,
    pub gold: i64,
}

/// Wallet after a salary: grows by the salary up to the cap, but an
/// above-cap wallet is never reduced.
pub open spec fn salary_result(before: int, salary: int, cap: int) -> int {
    let limit = if cap > before { cap } else { before };
    if before + salary < limit { before + salary } else { limit }
}

/// Whether a salary tick on `game_day` pays, given the last day paid.
pub open spec fn salary_due(last_day: Option<i64>, game_day: i64) -> bool {
    match last_day {
        Some(d) => d < game_day,
        None => false,
    }
}

/// The recorded salary day after a tick on `game_day`.
pub open spec fn salary_day_after(last_day: Option<i64>, game_day: i64) -> Option<i64> {
    match last_day {
        Some(d) => if d >= game_day { Some(d) } else { Some(game_day) },
        None => Some(game_day),
    }
}

/// The applied modifier of an offer: the request clamped to the band.
pub open spec fn applied_modifier(modifier_pct: i32, half_band: i32) -> int {
    clamp_spec(modifier_pct as int, -half_band, half_band as int)
}

/// The arithmetic of pricing an offer stays within `i64`.
pub open spec fn offer_in_range(world: &OfferWorld, modifier_pct: i32) -> bool {
    match (world.base_price, world.haggle) {
        (Some(base), Ok((rate, half_band))) => {
            let applied = applied_modifier(modifier_pct, half_band);
            &&& half_band >= 0
            &&& base > i64::MIN
            &&& buy_price_in_range(base as int, applied)
            &&& sell_payout_in_range(base as int, rate as int, applied)
            &&& sell_payout_in_range(base as int, rate as int, 0)
        },
        _ => true,
    }
}

/// Session-scoped game state whose rules are verified.
pub struct GameState {
    pub deals: DealBook,
    pub deal_ledgers: DealLedgers,
    pub player_gold: std::collections::HashMap<u64, i64>,
    pub npc_salary_last_day: Option<i64>,
}

impl GameState {
    /// The ledgers and deal book are well formed.
    pub open spec fn wf(&self) -> bool {
        &&& self.deals.wf()
        &&& self.deal_ledgers.wf()
    }

    /// The wallet of a player (0 when it has none).
    pub open spec fn gold_of(&self, player_id: u64) -> int {
        if self.player_gold@.contains_key(player_id) { self.player_gold@[player_id] as int } else { 0 }
    }

    /// A fresh state: no deals, the ledgers of `game_day`, no wallets, no
    /// salary day yet.
    pub fn new(game_day: i64) -> (r: GameState)
        ensures
            r.wf(),
            r.deals.view() == Map::<DealKeyView, DealEntry>::empty(),
            r.deal_ledgers.is_fresh(game_day),
            r.player_gold@ == Map::<u64, i64>::empty(),
            r.npc_salary_last_day.is_none(),
    {
        GameState {
            deals: DealBook::new(),
            deal_ledgers: DealLedgers::new(game_day),
            player_gold: std::collections::HashMap::new(),
            npc_salary_last_day: None,
        }
    }

    /// The current wallet of a player.
    pub fn get_player_gold(&self, player_id: u64) -> (r: i64)
        ensures
            r as int == self.gold_of(player_id),
    {
        match self.player_gold.get(&player_id) {
            Some(g) => *g,
            None => 0,
        }
    }

    /// Sets a player's wallet.
    pub fn set_player_gold(&mut self, player_id: u64, gold: i64)
        requires
            old(self).wf(),
        ensures
            final(self).wf(),
            final(self).player_gold@ == old(self).player_gold@.insert(player_id, gold),
            final(self).deals == old(self).deals,
            final(self).deal_ledgers == old(self).deal_ledgers,
            final(self).npc_salary_last_day == old(self).npc_salary_last_day,
    {
        self.player_gold.insert(player_id, gold);
    }

    /// Handle an NPC's offer of a haggled deal: the offer must come from an
    /// online official NPC and target an online player within sight; the
    /// NPC must be a trader and the item priced and haggleable. The
    /// requested modifier is clamped to the band, its cost charged to the
    /// day's ledgers (which roll over first when the day changed), and the
    /// deal stored, after expired deals are dropped.
    pub fn offer_deal(
        &mut self,
        npc_player_id: u64,
        target_player_id: u64,
        item_def_id: &String,
        kind: DealKind,
        modifier_pct: i32,
        world: &OfferWorld,
    ) -> (r: OfferOutcome)
        requires
            old(self).wf(),
            offer_in_range(world, modifier_pct),
            world.now_ms <= u64::MAX - DEAL_TTL_MS,
        ensures
            final(self).wf(),
            final(self).player_gold == old(self).player_gold,
            final(self).npc_salary_last_day == old(self).npc_salary_last_day,
            (world.npc.is_none() || !world.npc.unwrap().is_official_npc) ==> r == OfferOutcome::Ignored
                && final(self).deals.view() == old(self).deals.view()
                && final(self).deal_ledgers == old(self).deal_ledgers,
            world.npc.is_some() && world.npc.unwrap().is_official_npc ==> {
                let npc_name = world.npc.unwrap().name@;
                if world.target.is_none() {
                    r == OfferOutcome::Rejected(DealRejection::TargetNotFound)
                } else if world.target.unwrap().is_official_npc {
                    r == OfferOutcome::Rejected(DealRejection::TargetIsNpc)
                } else if !world.in_sight {
                    r == OfferOutcome::Rejected(DealRejection::TooFarAway)
                } else if !world.trader_known {
                    r == OfferOutcome::Rejected(DealRejection::NothingToTrade)
                } else if world.base_price.is_none() {
                    r == OfferOutcome::Rejected(DealRejection::NoPrice)
                } else if world.haggle.is_err() {
                    r == OfferOutcome::Rejected(DealRejection::NotHaggleable(world.haggle->Err_0))
                } else {
                    let (rate, half_band) = world.haggle->Ok_0;
                    let applied = applied_modifier(modifier_pct, half_band);
                    let cost = deal_cost_spec(world.base_price.unwrap() as int, rate as int, kind, applied);
                    let target_name = world.target.unwrap().name@;
                    let day_changed = old(self).deal_ledgers.game_day != world.game_day;
                    let granted = if day_changed { 0 } else { old(self).deal_ledgers.granted(npc_name) };
                    let received = if day_changed { 0 } else { old(self).deal_ledgers.received(target_name) };
                    let last = if day_changed { None } else { old(self).deal_ledgers.last_offer(npc_name, target_name) };
                    let key: DealKeyView = (target_player_id, npc_name, item_def_id@, kind);
                    &&& final(self).deal_ledgers.game_day == world.game_day
                    &&& crate::deals::cooling_down(last, world.now_ms)
                        ==> r == OfferOutcome::Rejected(DealRejection::CooldownActive)
                    &&& !crate::deals::cooling_down(last, world.now_ms) && granted + cost > crate::deals::MERCHANT_DAILY_DISCOUNT_BUDGET
                        ==> r == OfferOutcome::Rejected(DealRejection::TraderBudgetExhausted)
                    &&& !crate::deals::cooling_down(last, world.now_ms) && granted + cost <= crate::deals::MERCHANT_DAILY_DISCOUNT_BUDGET
                        && received + cost > crate::deals::PLAYER_DAILY_DISCOUNT_CAP
                        ==> r == OfferOutcome::Rejected(DealRejection::PlayerLimitReached)
                    &&& !crate::deals::cooling_down(last, world.now_ms) && granted + cost <= crate::deals::MERCHANT_DAILY_DISCOUNT_BUDGET
                        && received + cost <= crate::deals::PLAYER_DAILY_DISCOUNT_CAP
                        ==> {
                        &&& r == OfferOutcome::Accepted {
                            applied_modifier_pct: applied as i32,
                            cost: cost as i64,
                            expires_at_ms: (world.now_ms + DEAL_TTL_MS) as u64,
                        }
                        &&& final(self).deal_ledgers.granted(npc_name) == granted + cost
                        &&& final(self).deal_ledgers.received(target_name) == received + cost
                        &&& final(self).deal_ledgers.last_offer(npc_name, target_name) == Some(world.now_ms)
                        &&& forall|n: Seq<char>| n != npc_name ==> #[trigger] final(self).deal_ledgers.granted(n)
                            == (if day_changed { 0 } else { old(self).deal_ledgers.granted(n) })
                        &&& forall|n: Seq<char>| n != target_name ==> #[trigger] final(self).deal_ledgers.received(n)
                            == (if day_changed { 0 } else { old(self).deal_ledgers.received(n) })
                        &&& forall|a: Seq<char>, b: Seq<char>| !(a == npc_name && b == target_name)
                            ==> #[trigger] final(self).deal_ledgers.last_offer(a, b)
                            == (if day_changed { None::<u64> } else { old(self).deal_ledgers.last_offer(a, b) })
                        &&& final(self).deals.view() == old(self).deals.view().restrict(
                            old(self).deals.view().dom().filter(
                                |k: DealKeyView| old(self).deals.view()[k].expires_at_ms > world.now_ms,
                            ),
                        ).insert(key, DealEntry {
                            modifier_pct: applied as i32,
                            expires_at_ms: (world.now_ms + DEAL_TTL_MS) as u64,
                        })
                    }
                    &&& !(r is Accepted) ==> final(self).deals.view() == old(self).deals.view()
                        && final(self).deal_ledgers.rolled_from(&old(self).deal_ledgers, world.game_day)
                }
            },
            !(r is Accepted) && (world.target.is_none() || world.target.unwrap().is_official_npc
                || !world.in_sight || !world.trader_known || world.base_price.is_none() || world.haggle.is_err())
                ==> final(self).deal_ledgers == old(self).deal_ledgers
                && final(self).deals.view() == old(self).deals.view(),
    {
        let npc = match &world.npc {
            Some(n) => n,
            None => return OfferOutcome::Ignored,
        };
        if !npc.is_official_npc {
            return OfferOutcome::Ignored;
        }
        let target = match &world.target {
            Some(t) => t,
            None => return OfferOutcome::Rejected(DealRejection::TargetNotFound),
        };
        if target.is_official_npc {
            return OfferOutcome::Rejected(DealRejection::TargetIsNpc);
        }
        if !world.in_sight {
            return OfferOutcome::Rejected(DealRejection::TooFarAway);
        }
        if !world.trader_known {
            return OfferOutcome::Rejected(DealRejection::NothingToTrade);
        }
        let base_price = match world.base_price {
            Some(p) => p,
            None => return OfferOutcome::Rejected(DealRejection::NoPrice),
        };
        let (rate, half_band) = match &world.haggle {
            Ok(params) => *params,
            Err(why) => return OfferOutcome::Rejected(DealRejection::NotHaggleable(why.clone())),
        };
        let applied: i32 = if modifier_pct < -half_band {
            -half_band
        } else if modifier_pct > half_band {
            half_band
        } else {
            modifier_pct
        };
        let cost = deal_cost(base_price, rate, kind, applied);
        proof {
            crate::deals::lemma_deal_cost_nonnegative(base_price as int, rate as int, kind, applied as int);
        }
        self.deal_ledgers.roll_over_if_needed(world.game_day);
        match self.deal_ledgers.charge(&npc.name, &target.name, cost, world.now_ms) {
            Err(why) => return OfferOutcome::Rejected(why),
            Ok(()) => {},
        }
        let expires_at_ms = world.now_ms + DEAL_TTL_MS;
        self.deals.retain_unexpired(world.now_ms);
        let key = DealKey {
            player_id: target_player_id,
            merchant_name: npc.name.clone(),
            item_def_id: item_def_id.clone(),
            kind,
        };
        let entry = DealEntry { modifier_pct: applied, expires_at_ms };
        self.deals.insert(key, entry);
        OfferOutcome::Accepted { applied_modifier_pct: applied, cost, expires_at_ms }
    }

    /// Remove and return the player's live deal for this item, if any.
    pub fn take_deal(&mut self, player_id: u64, merchant_name: &String, item_def_id: &String, kind: DealKind, now_ms: u64) -> (r: Option<DealEntry>)
        requires
            old(self).wf(),
        ensures
            final(self).wf(),
            final(self).deal_ledgers == old(self).deal_ledgers,
            final(self).player_gold == old(self).player_gold,
            final(self).npc_salary_last_day == old(self).npc_salary_last_day,
            final(self).deals.view() == old(self).deals.view().remove((player_id, merchant_name@, item_def_id@, kind)),
            r == (if old(self).deals.view().dom().contains((player_id, merchant_name@, item_def_id@, kind))
                && old(self).deals.view()[(player_id, merchant_name@, item_def_id@, kind)].expires_at_ms > now_ms {
                Some(old(self).deals.view()[(player_id, merchant_name@, item_def_id@, kind)])
            } else {
                None::<DealEntry>
            }),
    {
        let key = DealKey {
            player_id,
            merchant_name: merchant_name.clone(),
            item_def_id: item_def_id.clone(),
            kind,
        };
        self.deals.take(&key, now_ms)
    }

    /// Put back a deal taken by `take_deal` after a failed trade.
    pub fn restore_deal(&mut self, player_id: u64, merchant_name: &String, item_def_id: &String, kind: DealKind, entry: Option<DealEntry>)
        requires
            old(self).wf(),
        ensures
            final(self).wf(),
            final(self).deal_ledgers == old(self).deal_ledgers,
            final(self).player_gold == old(self).player_gold,
            final(self).npc_salary_last_day == old(self).npc_salary_last_day,
            final(self).deals.view() == (match entry {
                Some(e) => old(self).deals.view().insert((player_id, merchant_name@, item_def_id@, kind), e),
                None => old(self).deals.view(),
            }),
    {
        let key = DealKey {
            player_id,
            merchant_name: merchant_name.clone(),
            item_def_id: item_def_id.clone(),
            kind,
        };
        self.deals.restore(key, entry);
    }

    /// The player's live deals with one trader.
    pub fn active_deals_for(&self, player_id: u64, merchant_name: &String, now_ms: u64) -> (r: Vec<ActiveDeal>)
        requires
            self.wf(),
        ensures
            forall|a: int| 0 <= a < r@.len() ==> {
                let k: DealKeyView = (player_id, merchant_name@, (#[trigger] r@[a]).item_def_id@, r@[a].kind);
                &&& self.deals.view().dom().contains(k)
                &&& self.deals.view()[k].expires_at_ms > now_ms
                &&& r@[a].modifier_pct == self.deals.view()[k].modifier_pct
                &&& r@[a].expires_in_secs == ((self.deals.view()[k].expires_at_ms - now_ms) / 1000) as u32
            },
            forall|k: DealKeyView| #[trigger] self.deals.view().dom().contains(k) && k.0 == player_id && k.1 == merchant_name@
                && self.deals.view()[k].expires_at_ms > now_ms
                ==> exists|a: int| 0 <= a < r@.len() && r@[a].item_def_id@ == k.2 && r@[a].kind == k.3,
            forall|a1: int, a2: int| 0 <= a1 < a2 < r@.len()
                ==> !((#[trigger] r@[a1]).item_def_id@ == (#[trigger] r@[a2]).item_def_id@ && r@[a1].kind == r@[a2].kind),
    {
        self.deals.active_for(player_id, merchant_name, now_ms)
    }

    /// Pay resident NPC salaries when the game day rolls over. The first
    /// tick after boot only records the day; within the same day (or an
    /// earlier one) nothing happens; otherwise each recipient's wallet grows
    /// by its salary up to its cap (an above-cap wallet is kept as is), and
    /// the wallets that changed are returned in recipient order.
    pub fn tick_npc_salaries(&mut self, game_day: i64, recipients: &Vec<SalaryRecipient>) -> (r: Vec<SalaryPayment>)
        requires
            old(self).wf(),
            distinct_recipients(recipients@),
            forall|i: int| 0 <= i < recipients@.len() ==> salary_fits(gold_in(old(self).player_gold@, (#[trigger] recipients@[i]).player_id), recipients@[i].salary_per_day),
        ensures
            final(self).wf(),
            final(self).deals == old(self).deals,
            final(self).deal_ledgers == old(self).deal_ledgers,
            final(self).npc_salary_last_day == salary_day_after(old(self).npc_salary_last_day, game_day),
            salary_due(old(self).npc_salary_last_day, game_day) ==> {
                &&& final(self).player_gold@ == salaries_gold(old(self).player_gold@, recipients@)
                &&& r@ == salary_payments(old(self).player_gold@, recipients@)
            },
            !salary_due(old(self).npc_salary_last_day, game_day) ==> r@.len() == 0
                && final(self).player_gold@ == old(self).player_gold@,
    {
        match self.npc_salary_last_day {
            None => {
                self.npc_salary_last_day = Some(game_day);
                return Vec::new();
            },
            Some(day) => {
                if day >= game_day {
                    return Vec::new();
                }
                self.npc_salary_last_day = Some(game_day);
            },
        }
        let mut paid: Vec<SalaryPayment> = Vec::new();
        let ghost start = self.player_gold@;
        let mut i: usize = 0;
        proof {
            assert(recipients@.take(0) =~= Seq::<SalaryRecipient>::empty());
        }
        while i < recipients.len()
            invariant
                i <= recipients@.len(),
                self.wf(),
                self.deals == old(self).deals,
                self.deal_ledgers == old(self).deal_ledgers,
                self.npc_salary_last_day == Some(game_day),
                start == old(self).player_gold@,
                distinct_recipients(recipients@),
                forall|k: int| 0 <= k < recipients@.len() ==> salary_fits(gold_in(start, (#[trigger] recipients@[k]).player_id), recipients@[k].salary_per_day),
                self.player_gold@ == salaries_gold(start, recipients@.take(i as int)),
                paid@ == salary_payments(start, recipients@.take(i as int)),
            decreases recipients.len() - i,
        {
            let rc = recipients[i];
            proof {
                lemma_salaries_elsewhere(start, recipients@.take(i as int), rc.player_id);
                assert forall|k: int| 0 <= k < recipients@.take(i as int).len() implies
                    (#[trigger] recipients@.take(i as int)[k]).player_id != rc.player_id by {
                    assert(recipients@.take(i as int)[k] == recipients@[k]);
                }
            }
            let before = self.get_player_gold(rc.player_id);
            let limit: i64 = if rc.wallet_cap > before { rc.wallet_cap } else { before };
            let sum: i64 = before + rc.salary_per_day;
            let after: i64 = if sum < limit { sum } else { limit };
            self.player_gold.insert(rc.player_id, after);
            if after != before {
                paid.push(SalaryPayment { player_id: rc.player_id, gold: after });
            }
            proof {
                assert(recipients@.take(i + 1).drop_last() =~= recipients@.take(i as int));
                assert(recipients@.take(i + 1).last() == rc);
            }
            i = i + 1;
        }
        proof {
            assert(recipients@.take(recipients@.len() as int) =~= recipients@);
        }
        paid
    }
}

/// The wallet of `player_id` in `gold` (0 when absent).
pub open spec fn gold_in(gold: Map<u64, i64>, player_id: u64) -> int {
    if gold.contains_key(player_id) { gold[player_id] as int } else { 0 }
}

/// No NPC is listed twice.
pub open spec fn distinct_recipients(recipients: Seq<SalaryRecipient>) -> bool {
    forall|a: int, b: int| 0 <= a < b < recipients.len() ==> (#[trigger] recipients[a]).player_id != (#[trigger] recipients[b]).player_id
}

/// Adding the salary to the wallet stays within `i64`.
pub open spec fn salary_fits(before: int, salary: i64) -> bool {
    i64::MIN <= before + salary <= i64::MAX
}

/// Paying recipients leaves the wallet of anyone not among them unchanged.
proof fn lemma_salaries_elsewhere(gold: Map<u64, i64>, recipients: Seq<SalaryRecipient>, id: u64)
    requires
        forall|k: int| 0 <= k < recipients.len() ==> (#[trigger] recipients[k]).player_id != id,
    ensures
        gold_in(salaries_gold(gold, recipients), id) == gold_in(gold, id),
    decreases recipients.len(),
{
    if recipients.len() > 0 {
        assert forall|k: int| 0 <= k < recipients.drop_last().len() implies (#[trigger] recipients.drop_last()[k]).player_id != id by {
            assert(recipients.drop_last()[k] == recipients[k]);
        }
        lemma_salaries_elsewhere(gold, recipients.drop_last(), id);
        assert(recipients.last() == recipients[recipients.len() - 1]);
    }
}

/// Wallets after paying each recipient in order.
pub open spec fn salaries_gold(gold: Map<u64, i64>, recipients: Seq<SalaryRecipient>) -> Map<u64, i64>
    decreases recipients.len(),
{
    if recipients.len() == 0 {
        gold
    } else {
        let g = salaries_gold(gold, recipients.drop_last());
        let rc = recipients.last();
        let before = gold_in(g, rc.player_id);
        g.insert(rc.player_id, salary_result(before, rc.salary_per_day as int, rc.wallet_cap as int) as i64)
    }
}

/// The payments made while paying each recipient in order: one for every
/// wallet that changed, with its new balance.
pub open spec fn salary_payments(gold: Map<u64, i64>, recipients: Seq<SalaryRecipient>) -> Seq<SalaryPayment>
    decreases recipients.len(),
{
    if recipients.len() == 0 {
        Seq::empty()
    } else {
        let prev = salary_payments(gold, recipients.drop_last());
        let g = salaries_gold(gold, recipients.drop_last());
        let rc = recipients.last();
        let before = gold_in(g, rc.player_id);
        let after = salary_result(before, rc.salary_per_day as int, rc.wallet_cap as int);
        if after != before {
            prev.push(SalaryPayment { player_id: rc.player_id, gold: after as i64 })
        } else {
            prev
        }
    }
}

/// Salaries never shrink a wallet, never push it past its cap unless it
/// was already above, and a wallet below the cap reaches it only when the
/// salary covers the gap.
pub proof fn lemma_salary_bounds(before: int, salary: int, cap: int)
    requires
        0 <= salary,
    ensures
        salary_result(before, salary, cap) >= before,
        salary_result(before, salary, cap) <= if cap > before { cap } else { before },
        before + salary <= cap ==> salary_result(before, salary, cap) == before + salary,
        before >= cap ==> salary_result(before, salary, cap) == before,
{
}

/// A salary is paid at most once per game day: after a tick on `game_day`
/// another tick on the same day (or an earlier one) pays nothing.
pub proof fn lemma_salary_once_per_day(last_day: Option<i64>, game_day: i64, later_day: i64)
    requires
        later_day <= game_day,
    ensures
        !salary_due(salary_day_after(last_day, game_day), later_day),
{
}

} // verus!
