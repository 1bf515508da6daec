//! Haggling: NPC traders propose price modifiers, which the server clamps
//! to a CHA-derived band, charges against daily discount budgets, rate
//! limits per (trader, player) pair, and stores as single-use deals.
use vstd::prelude::*;

use crate::text::{chars_of, dec_int, decimal_int, extend_chars, extend_str, string_of};

verus! {

/// Band half-width in percentage points at CHA 10.
pub const DEAL_BASE_HALF_BAND_PCT: i32 = 10;
/// Band half-width floor (very low CHA).
pub const DEAL_MIN_HALF_BAND_PCT: i32 = 5;
/// Band half-width ceiling (very high CHA).
pub const DEAL_MAX_HALF_BAND_PCT: i32 = 25;
/// Resident (non-merchant) band floor.
pub const RESIDENT_MIN_HALF_BAND_PCT: i32 = 10;
/// Resident (non-merchant) band ceiling.
pub const RESIDENT_MAX_HALF_BAND_PCT: i32 = 50;
/// How long a granted deal stays redeemable (real time, ms).
pub const DEAL_TTL_MS: u64 = 300000;
/// Minimum real time between accepted offers per (trader, player), ms.
pub const DEAL_COOLDOWN_MS: u64 = 30000;
/// Total discount value a trading NPC may grant per game day.
pub const MERCHANT_DAILY_DISCOUNT_BUDGET: i64 = 10000;
/// Total discount value a player may receive per game day.
pub const PLAYER_DAILY_DISCOUNT_CAP: i64 = 4000;

/// Whether a deal is a purchase or a sale, from the player's side.
#[derive(Debug, Clone, Copy, PartialEq, Eq, Structural)]
pub enum DealKind {
    Buy,
    Sell,
}

/// `v` clamped to `[lo, hi]`.
pub open spec fn clamp_spec(v: int, lo: int, hi: int) -> int {
    if v < lo { lo } else if v > hi { hi } else { v }
}

/// Rust's integer division (truncating toward zero) by a positive divisor.
pub open spec fn tdiv(a: int, b: int) -> int {
    if a >= 0 { a / b } else { -((-a) / b) }
}

/// The larger of `v` and `floor`.
pub open spec fn at_least(v: int, floor: int) -> int {
    if v < floor { floor } else { v }
}

/// The money-pump invariant for a trader's sell rate: at the widest band,
/// the cheapest buy (in hundredths of a percent of base) still exceeds the
/// best sell.
pub open spec fn band_invariant_spec(sell_rate_percent: int) -> bool {
    (100 - DEAL_MAX_HALF_BAND_PCT) * 100 > sell_rate_percent * (100 + DEAL_MAX_HALF_BAND_PCT)
}

/// Merchant band half-width for a given CHA.
pub open spec fn deal_half_band_spec(cha: int) -> int {
    clamp_spec(DEAL_BASE_HALF_BAND_PCT + 2 * (cha - 10), DEAL_MIN_HALF_BAND_PCT as int, DEAL_MAX_HALF_BAND_PCT as int)
}

/// Resident band half-width for a given CHA: twice the merchant width
/// before clamping.
pub open spec fn resident_half_band_spec(cha: int) -> int {
    clamp_spec(2 * (DEAL_BASE_HALF_BAND_PCT + 2 * (cha - 10)), RESIDENT_MIN_HALF_BAND_PCT as int, RESIDENT_MAX_HALF_BAND_PCT as int)
}

/// Unit price a player pays when buying at `modifier_pct`.
pub open spec fn buy_price_spec(base_price: int, modifier_pct: int) -> int {
    at_least(tdiv(base_price * (100 + modifier_pct), 100), 1)
}

/// Unit payout a player receives when selling at `modifier_pct`.
pub open spec fn sell_payout_spec(base_price: int, sell_rate_percent: int, modifier_pct: int) -> int {
    at_least(tdiv(base_price * sell_rate_percent * (100 + modifier_pct), 10000), 1)
}

/// What a deal costs the trader relative to undiscounted prices.
pub open spec fn deal_cost_spec(base_price: int, sell_rate_percent: int, kind: DealKind, modifier_pct: int) -> int {
    match kind {
        DealKind::Buy => at_least(base_price - buy_price_spec(base_price, modifier_pct), 0),
        DealKind::Sell => at_least(
            sell_payout_spec(base_price, sell_rate_percent, modifier_pct)
                - sell_payout_spec(base_price, sell_rate_percent, 0),
            0,
        ),
    }
}

/// The arithmetic of `buy_price` stays within `i64`.
pub open spec fn buy_price_in_range(base_price: int, modifier_pct: int) -> bool {
    i64::MIN <= base_price * (100 + modifier_pct) <= i64::MAX
}

/// The arithmetic of `sell_payout` stays within `i64`.
pub open spec fn sell_payout_in_range(base_price: int, sell_rate_percent: int, modifier_pct: int) -> bool {
    &&& i64::MIN <= base_price * sell_rate_percent <= i64::MAX
    &&& i64::MIN <= base_price * sell_rate_percent * (100 + modifier_pct) <= i64::MAX
}

/// Money-pump invariant: even at maximum band width, the cheapest possible
/// buy must still cost more than the best possible sell pays out.
pub fn band_invariant_holds(sell_rate_percent: u32) -> (b: bool)
    ensures
        b == band_invariant_spec(sell_rate_percent as int),
{
    let min_buy_pct_of_base: i64 = (100 - DEAL_MAX_HALF_BAND_PCT) as i64 * 100;
    proof {
        assert(sell_rate_percent as int * 125 <= 4294967295 * 125) by (nonlinear_arith)
            requires sell_rate_percent as int <= 4294967295;
    }
    let max_sell_pct_of_base: i64 = sell_rate_percent as i64 * (100 + DEAL_MAX_HALF_BAND_PCT) as i64;
    min_buy_pct_of_base > max_sell_pct_of_base
}

/// Half-width of the price band for a player with the given CHA.
pub fn deal_half_band_pct(cha: u8) -> (r: i32)
    ensures
        r as int == deal_half_band_spec(cha as int),
{
    let raw: i32 = DEAL_BASE_HALF_BAND_PCT + 2 * (cha as i32 - 10);
    if raw < DEAL_MIN_HALF_BAND_PCT {
        DEAL_MIN_HALF_BAND_PCT
    } else if raw > DEAL_MAX_HALF_BAND_PCT {
        DEAL_MAX_HALF_BAND_PCT
    } else {
        raw
    }
}

/// Resident band half-width: twice the merchant width before clamping.
pub fn resident_half_band_pct(cha: u8) -> (r: i32)
    ensures
        r as int == resident_half_band_spec(cha as int),
{
    let raw: i32 = 2 * (DEAL_BASE_HALF_BAND_PCT + 2 * (cha as i32 - 10));
    if raw < RESIDENT_MIN_HALF_BAND_PCT {
        RESIDENT_MIN_HALF_BAND_PCT
    } else if raw > RESIDENT_MAX_HALF_BAND_PCT {
        RESIDENT_MAX_HALF_BAND_PCT
    } else {
        raw
    }
}

/// Rust's truncating division of an `i64` by a positive divisor.
fn trunc_div(a: i64, b: i64) -> (q: i64)
    requires
        b > 0,
        a > i64::MIN,
    ensures
        q as int == tdiv(a as int, b as int),
{
    if a >= 0 {
        a / b
    } else {
        let pos: i64 = -a;
        -(pos / b)
    }
}

/// Unit price a player pays when buying at `modifier_pct`.
pub fn buy_price(base_price: i64, modifier_pct: i32) -> (r: i64)
    requires
        buy_price_in_range(base_price as int, modifier_pct as int),
    ensures
        r as int == buy_price_spec(base_price as int, modifier_pct as int),
{
    let factor: i64 = 100 + modifier_pct as i64;
    let product: i64 = base_price * factor;
    if product == i64::MIN {
        proof {
            assert(tdiv(product as int, 100) < 1);
        }
        return 1;
    }
    let q = trunc_div(product, 100);
    if q < 1 { 1 } else { q }
}

/// Unit payout a player receives when selling at `modifier_pct`.
pub fn sell_payout(base_price: i64, sell_rate_percent: u32, modifier_pct: i32) -> (r: i64)
    requires
        sell_payout_in_range(base_price as int, sell_rate_percent as int, modifier_pct as int),
    ensures
        r as int == sell_payout_spec(base_price as int, sell_rate_percent as int, modifier_pct as int),
{
    let factor: i64 = 100 + modifier_pct as i64;
    let first: i64 = base_price * sell_rate_percent as i64;
    let product: i64 = first * factor;
    if product == i64::MIN {
        proof {
            assert(tdiv(product as int, 10000) < 1);
        }
        return 1;
    }
    let q = trunc_div(product, 10000);
    if q < 1 { 1 } else { q }
}

/// What a deal costs the trader relative to undiscounted prices. Markups
/// (buy modifier > 0) and lowball sell offers cost nothing.
pub fn deal_cost(base_price: i64, sell_rate_percent: u32, kind: DealKind, modifier_pct: i32) -> (r: i64)
    requires
        buy_price_in_range(base_price as int, modifier_pct as int),
        sell_payout_in_range(base_price as int, sell_rate_percent as int, modifier_pct as int),
        sell_payout_in_range(base_price as int, sell_rate_percent as int, 0),
        base_price > i64::MIN,
    ensures
        r as int == deal_cost_spec(base_price as int, sell_rate_percent as int, kind, modifier_pct as int),
{
    match kind {
        DealKind::Buy => {
            let p = buy_price(base_price, modifier_pct);
            if base_price < 0 && p > 0 && base_price - i64::MIN < p {
                // The difference would be far below zero; it clamps to 0.
                0
            } else {
                let d = base_price - p;
                if d < 0 { 0 } else { d }
            }
        },
        DealKind::Sell => {
            let with = sell_payout(base_price, sell_rate_percent, modifier_pct);
            let without = sell_payout(base_price, sell_rate_percent, 0);
            proof {
                assert(with >= 1 && without >= 1);
            }
            let d = with - without;
            if d < 0 { 0 } else { d }
        },
    }
}

/// Deal costs are never negative.
pub proof fn lemma_deal_cost_nonnegative(base_price: int, sell_rate_percent: int, kind: DealKind, modifier_pct: int)
    ensures
        deal_cost_spec(base_price, sell_rate_percent, kind, modifier_pct) >= 0,
{
}

proof fn lemma_floor_scale(a: int)
    requires
        a >= 0,
    ensures
        (a * 100) / 10000 == a / 100,
{
    assert((a * 100) / 10000 == a / 100) by (nonlinear_arith)
        requires a >= 0;
}

/// No money pump: when a trader's sell rate satisfies the band invariant,
/// selling an item at any modifier within the widest merchant band never
/// pays out more than buying the same item at any modifier within that band
/// costs.
pub proof fn lemma_no_money_pump(base_price: int, sell_rate_percent: int, buy_modifier: int, sell_modifier: int)
    requires
        sell_rate_percent >= 0,
        band_invariant_spec(sell_rate_percent),
        -DEAL_MAX_HALF_BAND_PCT <= buy_modifier <= DEAL_MAX_HALF_BAND_PCT,
        -DEAL_MAX_HALF_BAND_PCT <= sell_modifier <= DEAL_MAX_HALF_BAND_PCT,
    ensures
        sell_payout_spec(base_price, sell_rate_percent, sell_modifier)
            <= buy_price_spec(base_price, buy_modifier),
        base_price >= 80 ==> sell_payout_spec(base_price, sell_rate_percent, sell_modifier)
            < buy_price_spec(base_price, buy_modifier),
{
    let b = base_price;
    let r = sell_rate_percent;
    if b <= 0 {
        assert(b * (100 + buy_modifier) <= 0) by (nonlinear_arith)
            requires b <= 0, 100 + buy_modifier >= 0;
        assert(b * r * (100 + sell_modifier) <= 0) by (nonlinear_arith)
            requires b <= 0, r >= 0, 100 + sell_modifier >= 0;
    } else {
        assert(r <= 59);
        let big_b = b * (100 + buy_modifier);
        let big_s = b * r * (100 + sell_modifier);
        assert(big_b >= b * 75) by (nonlinear_arith)
            requires b > 0, buy_modifier >= -25, big_b == b * (100 + buy_modifier);
        assert(0 <= big_s <= b * 7375) by (nonlinear_arith)
            requires b > 0, 0 <= r <= 59, -25 <= sell_modifier <= 25, big_s == b * r * (100 + sell_modifier);
        assert(big_s / 10000 <= (big_b * 100) / 10000) by (nonlinear_arith)
            requires big_s <= b * 7375, big_b >= b * 75, b > 0, big_s >= 0;
        lemma_floor_scale(big_b);
        if b >= 80 {
            assert(big_s + 10000 <= big_b * 100) by (nonlinear_arith)
                requires big_s <= b * 7375, big_b >= b * 75, b >= 80;
            assert(big_s / 10000 + 1 <= (big_b * 100) / 10000) by (nonlinear_arith)
                requires big_s + 10000 <= big_b * 100, big_s >= 0;
        }
    }
}

/// Band widths are monotone in CHA and stay within their limits; the
/// resident band is never narrower than the merchant band.
pub proof fn lemma_band_widths(cha_lo: int, cha_hi: int)
    requires
        cha_lo <= cha_hi,
    ensures
        DEAL_MIN_HALF_BAND_PCT <= deal_half_band_spec(cha_lo) <= DEAL_MAX_HALF_BAND_PCT,
        RESIDENT_MIN_HALF_BAND_PCT <= resident_half_band_spec(cha_lo) <= RESIDENT_MAX_HALF_BAND_PCT,
        deal_half_band_spec(cha_lo) <= deal_half_band_spec(cha_hi),
        resident_half_band_spec(cha_lo) <= resident_half_band_spec(cha_hi),
        deal_half_band_spec(cha_lo) <= resident_half_band_spec(cha_lo),
{
}

/// The band invariant holds exactly for sell rates below 60%.
pub proof fn lemma_band_invariant_threshold(sell_rate_percent: int)
    requires
        sell_rate_percent >= 0,
    ensures
        band_invariant_spec(sell_rate_percent) <==> sell_rate_percent < 60,
{
}

// ---------------------------------------------------------------------------
// Daily ledgers
// ---------------------------------------------------------------------------

/// Running daily totals keyed by character name; a name that was never
/// charged counts as 0.
pub struct NameLedger {
    entries: Vec<(String, i64)>,
}

impl NameLedger {
    /// No name occurs twice.
    pub closed spec fn wf(&self) -> bool {
        forall|i: int, j: int|
            0 <= i < j < self.entries@.len() ==> (#[trigger] self.entries@[i]).0@ != (#[trigger] self.entries@[j]).0@
    }

    /// Whether `name` has an entry.
    pub closed spec fn has(&self, name: Seq<char>) -> bool {
        exists|i: int| 0 <= i < self.entries@.len() && (#[trigger] self.entries@[i]).0@ == name
    }

    /// The total charged to `name` (0 when absent).
    pub closed spec fn amount(&self, name: Seq<char>) -> int {
        if self.has(name) {
            let i = choose|i: int| 0 <= i < self.entries@.len() && (#[trigger] self.entries@[i]).0@ == name;
            self.entries@[i].1 as int
        } else {
            0
        }
    }

    proof fn lemma_amount_at(&self, i: int)
        requires
            self.wf(),
            0 <= i < self.entries@.len(),
        ensures
            self.has(self.entries@[i].0@),
            self.amount(self.entries@[i].0@) == self.entries@[i].1,
    {
        let name = self.entries@[i].0@;
        assert(self.has(name));
        let j = choose|j: int| 0 <= j < self.entries@.len() && (#[trigger] self.entries@[j]).0@ == name;
        if j != i {
            if i < j {
                assert(self.entries@[i].0@ != self.entries@[j].0@);
            } else {
                assert(self.entries@[j].0@ != self.entries@[i].0@);
            }
        }
    }

    /// An empty ledger.
    pub fn new() -> (r: NameLedger)
        ensures
            r.wf(),
            forall|n: Seq<char>| r.amount(n) == 0,
    {
        NameLedger { entries: Vec::new() }
    }

    fn find(&self, name: &String) -> (r: Option<usize>)
        requires
            self.wf(),
        ensures
            match r {
                Some(i) => i < self.entries@.len() && self.entries@[i as int].0@ == name@,
                None => !self.has(name@),
            },
    {
        let mut i: usize = 0;
        while i < self.entries.len()
            invariant
                i <= self.entries@.len(),
                forall|j: int| 0 <= j < i ==> (#[trigger] self.entries@[j]).0@ != name@,
            decreases self.entries.len() - i,
        {
            if self.entries[i].0 == *name {
                return Some(i);
            }
            i = i + 1;
        }
        None
    }

    /// The total charged to `name`.
    pub fn get(&self, name: &String) -> (r: i64)
        requires
            self.wf(),
        ensures
            r as int == self.amount(name@),
    {
        match self.find(name) {
            Some(i) => {
                proof {
                    self.lemma_amount_at(i as int);
                }
                self.entries[i].1
            },
            None => 0,
        }
    }

    /// Sets the total of `name` to `value`.
    pub fn set(&mut self, name: &String, value: i64)
        requires
            old(self).wf(),
        ensures
            final(self).wf(),
            final(self).amount(name@) == value,
            forall|n: Seq<char>| n != name@ ==> final(self).amount(n) == old(self).amount(n),
    {
        let ghost old_entries = self.entries@;
        match self.find(name) {
            Some(i) => {
                self.entries.set(i, (name.clone(), value));
                proof {
                    assert(self.wf());
                    self.lemma_amount_at(i as int);
                    assert forall|n: Seq<char>| n != name@ implies self.amount(n) == old(self).amount(n) by {
                        if old(self).has(n) {
                            let k = choose|k: int| 0 <= k < old_entries.len() && (#[trigger] old_entries[k]).0@ == n;
                            old(self).lemma_amount_at(k);
                            assert(self.entries@[k] == old_entries[k]);
                            self.lemma_amount_at(k);
                        } else {
                            assert(!self.has(n)) by {
                                if self.has(n) {
                                    let k = choose|k: int| 0 <= k < self.entries@.len() && (#[trigger] self.entries@[k]).0@ == n;
                                    assert(old_entries[k].0@ == n);
                                }
                            }
                        }
                    }
                }
            },
            None => {
                self.entries.push((name.clone(), value));
                proof {
                    let last = old_entries.len() as int;
                    assert(self.entries@[last].0@ == name@);
                    assert(self.wf());
                    self.lemma_amount_at(last);
                    assert forall|n: Seq<char>| n != name@ implies self.amount(n) == old(self).amount(n) by {
                        if old(self).has(n) {
                            let k = choose|k: int| 0 <= k < old_entries.len() && (#[trigger] old_entries[k]).0@ == n;
                            old(self).lemma_amount_at(k);
                            assert(self.entries@[k] == old_entries[k]);
                            self.lemma_amount_at(k);
                        } else {
                            assert(!self.has(n)) by {
                                if self.has(n) {
                                    let k = choose|k: int| 0 <= k < self.entries@.len() && (#[trigger] self.entries@[k]).0@ == n;
                                    if k < last {
                                        assert(old_entries[k].0@ == n);
                                    }
                                }
                            }
                        }
                    }
                }
            },
        }
    }
}

/// Times of the last accepted offer, keyed by (trader name, player name).
pub struct PairClock {
    entries: Vec<(String, String, u64)>,
}

impl PairClock {
    /// No pair occurs twice.
    pub closed spec fn wf(&self) -> bool {
        forall|i: int, j: int|
            0 <= i < j < self.entries@.len() ==> ((#[trigger] self.entries@[i]).0@, self.entries@[i].1@)
                != ((#[trigger] self.entries@[j]).0@, self.entries@[j].1@)
    }

    /// Whether the pair has an entry.
    pub closed spec fn has(&self, a: Seq<char>, b: Seq<char>) -> bool {
        exists|i: int| 0 <= i < self.entries@.len() && (#[trigger] self.entries@[i]).0@ == a && self.entries@[i].1@ == b
    }

    /// The recorded time of the pair, if any.
    pub closed spec fn last(&self, a: Seq<char>, b: Seq<char>) -> Option<u64> {
        if self.has(a, b) {
            let i = choose|i: int| 0 <= i < self.entries@.len() && (#[trigger] self.entries@[i]).0@ == a && self.entries@[i].1@ == b;
            Some(self.entries@[i].2)
        } else {
            None
        }
    }

    proof fn lemma_last_at(&self, i: int)
        requires
            self.wf(),
            0 <= i < self.entries@.len(),
        ensures
            self.last(self.entries@[i].0@, self.entries@[i].1@) == Some(self.entries@[i].2),
    {
        let a = self.entries@[i].0@;
        let b = self.entries@[i].1@;
        assert(self.has(a, b));
        let j = choose|j: int| 0 <= j < self.entries@.len() && (#[trigger] self.entries@[j]).0@ == a && self.entries@[j].1@ == b;
        if j != i {
            if i < j {
                assert((self.entries@[i].0@, self.entries@[i].1@) != (self.entries@[j].0@, self.entries@[j].1@));
            } else {
                assert((self.entries@[j].0@, self.entries@[j].1@) != (self.entries@[i].0@, self.entries@[i].1@));
            }
        }
    }

    /// An empty clock.
    pub fn new() -> (r: PairClock)
        ensures
            r.wf(),
            forall|a: Seq<char>, b: Seq<char>| r.last(a, b).is_none(),
    {
        PairClock { entries: Vec::new() }
    }

    fn find(&self, a: &String, b: &String) -> (r: Option<usize>)
        requires
            self.wf(),
        ensures
            match r {
                Some(i) => i < self.entries@.len() && self.entries@[i as int].0@ == a@ && self.entries@[i as int].1@ == b@,
                None => !self.has(a@, b@),
            },
    {
        let mut i: usize = 0;
        while i < self.entries.len()
            invariant
                i <= self.entries@.len(),
                forall|j: int| 0 <= j < i ==> !((#[trigger] self.entries@[j]).0@ == a@ && self.entries@[j].1@ == b@),
            decreases self.entries.len() - i,
        {
            if self.entries[i].0 == *a && self.entries[i].1 == *b {
                return Some(i);
            }
            i = i + 1;
        }
        None
    }

    /// The recorded time of the pair, if any.
    pub fn get(&self, a: &String, b: &String) -> (r: Option<u64>)
        requires
            self.wf(),
        ensures
            r == self.last(a@, b@),
    {
        match self.find(a, b) {
            Some(i) => {
                proof {
                    self.lemma_last_at(i as int);
                }
                Some(self.entries[i].2)
            },
            None => None,
        }
    }

    /// Records `t` for the pair.
    pub fn set(&mut self, a: &String, b: &String, t: u64)
        requires
            old(self).wf(),
        ensures
            final(self).wf(),
            final(self).last(a@, b@) == Some(t),
            forall|x: Seq<char>, y: Seq<char>| !(x == a@ && y == b@) ==> final(self).last(x, y) == old(self).last(x, y),
    {
        let ghost old_entries = self.entries@;
        let ghost mut idx: int = 0;
        match self.find(a, b) {
            Some(i) => {
                self.entries.set(i, (a.clone(), b.clone(), t));
                proof {
                    idx = i as int;
                }
            },
            None => {
                self.entries.push((a.clone(), b.clone(), t));
                proof {
                    idx = old_entries.len() as int;
                }
            },
        }
        proof {
            assert(self.wf());
            assert(self.entries@[idx].0@ == a@ && self.entries@[idx].1@ == b@ && self.entries@[idx].2 == t);
            self.lemma_last_at(idx);
            assert forall|x: Seq<char>, y: Seq<char>| !(x == a@ && y == b@) implies final(self).last(x, y) == old(self).last(x, y) by {
                if old(self).has(x, y) {
                    let k = choose|k: int| 0 <= k < old_entries.len() && (#[trigger] old_entries[k]).0@ == x && old_entries[k].1@ == y;
                    old(self).lemma_last_at(k);
                    assert(self.entries@[k] == old_entries[k]);
                    self.lemma_last_at(k);
                } else {
                    assert(!self.has(x, y)) by {
                        if self.has(x, y) {
                            let k = choose|k: int| 0 <= k < self.entries@.len() && (#[trigger] self.entries@[k]).0@ == x && self.entries@[k].1@ == y;
                            if k < old_entries.len() {
                                assert(old_entries[k].0@ == x && old_entries[k].1@ == y);
                            }
                        }
                    }
                }
            }
        }
    }
}

/// Why an offered deal was turned down.
#[derive(Debug, PartialEq, Eq)]
pub enum DealRejection {
    TargetNotFound,
    TargetIsNpc,
    TooFarAway,
    NothingToTrade,
    NoPrice,
    NotHaggleable(String),
    CooldownActive,
    TraderBudgetExhausted,
    PlayerLimitReached,
}

/// The reason given to the NPC for a refusal.
pub open spec fn rejection_reason_spec(r: DealRejection) -> Seq<char> {
    match r {
        DealRejection::TargetNotFound => "target player not found"@,
        DealRejection::TargetIsNpc => "deals can only be offered to players"@,
        DealRejection::TooFarAway => "player is too far away"@,
        DealRejection::NothingToTrade => "you have nothing to trade with"@,
        DealRejection::NoPrice => "that item has no price"@,
        DealRejection::NotHaggleable(why) => why@,
        DealRejection::CooldownActive => "haggling cooldown is active for this player"@,
        DealRejection::TraderBudgetExhausted => "your discount budget for today is exhausted"@,
        DealRejection::PlayerLimitReached => "this player has reached today's discount limit"@,
    }
}

impl DealRejection {
    /// The message the NPC receives: `offer rejected: {reason}`.
    pub fn message(&self) -> (r: String)
        ensures
            r@ == "offer rejected: "@ + rejection_reason_spec(*self),
    {
        let head = String::from_str("offer rejected: ");
        match self {
            DealRejection::TargetNotFound => head.concat("target player not found"),
            DealRejection::TargetIsNpc => head.concat("deals can only be offered to players"),
            DealRejection::TooFarAway => head.concat("player is too far away"),
            DealRejection::NothingToTrade => head.concat("you have nothing to trade with"),
            DealRejection::NoPrice => head.concat("that item has no price"),
            DealRejection::NotHaggleable(why) => head.concat(why.as_str()),
            DealRejection::CooldownActive => head.concat("haggling cooldown is active for this player"),
            DealRejection::TraderBudgetExhausted => head.concat("your discount budget for today is exhausted"),
            DealRejection::PlayerLimitReached => head.concat("this player has reached today's discount limit"),
        }
    }
}

/// The message the NPC receives for a granted deal: plain when the
/// requested modifier stood, else naming the clamp.
pub open spec fn granted_message_spec(requested: i32, applied: i32) -> Seq<char> {
    if requested == applied {
        "deal granted"@
    } else {
        "deal granted, but clamped from "@ + dec_int(requested as int) + "% to "@ + dec_int(applied as int) + "%"@
    }
}

/// The message for a granted deal.
pub fn granted_message(requested: i32, applied: i32) -> (r: String)
    ensures
        r@ == granted_message_spec(requested, applied),
{
    if requested == applied {
        return String::from_str("deal granted");
    }
    let mut v: Vec<char> = chars_of("deal granted, but clamped from ");
    extend_chars(&mut v, &decimal_int(requested as i64));
    extend_str(&mut v, "% to ");
    extend_chars(&mut v, &decimal_int(applied as i64));
    extend_str(&mut v, "%");
    proof {
        assert(v@ =~= granted_message_spec(requested, applied));
    }
    string_of(&v)
}

/// What `DealBook::take` does to a book's view `m`: the deal under `k` is
/// removed, and returned when it is live at `now_ms`.
pub open spec fn take_spec(m: Map<DealKeyView, DealEntry>, k: DealKeyView, now_ms: u64) -> (Map<DealKeyView, DealEntry>, Option<DealEntry>) {
    (m.remove(k), if m.dom().contains(k) && m[k].expires_at_ms > now_ms { Some(m[k]) } else { None })
}

/// What `DealBook::restore` does to a book's view `m`.
pub open spec fn restore_spec(m: Map<DealKeyView, DealEntry>, k: DealKeyView, e: Option<DealEntry>) -> Map<DealKeyView, DealEntry> {
    match e {
        Some(d) => m.insert(k, d),
        None => m,
    }
}

/// A deal is used at most once: a second `take` of the same key finds
/// nothing. Restoring what `take` returned puts a live deal back exactly as
/// it was (an expired one stays dropped).
pub proof fn lemma_take_single_use_and_restorable(m: Map<DealKeyView, DealEntry>, k: DealKeyView, now_ms: u64, later_ms: u64)
    ensures
        take_spec(take_spec(m, k, now_ms).0, k, later_ms).1 is None,
        restore_spec(take_spec(m, k, now_ms).0, k, take_spec(m, k, now_ms).1)
            == (if m.dom().contains(k) && m[k].expires_at_ms > now_ms { m } else { m.remove(k) }),
{
    if m.dom().contains(k) && m[k].expires_at_ms > now_ms {
        assert(m.remove(k).insert(k, m[k]) =~= m);
    }
}

/// Daily haggling ledgers, reset when the game day rolls over. Keyed by
/// character name (stable across sessions).
pub struct DealLedgers {
    pub game_day: i64,
    pub npc_granted: NameLedger,
    pub player_received: NameLedger,
    pub last_accepted_offer: PairClock,
}

/// The cooldown test: less than `DEAL_COOLDOWN_MS` since the last accepted
/// offer (a clock that went backwards counts as no time elapsed).
pub open spec fn cooling_down(last: Option<u64>, now_ms: u64) -> bool {
    match last {
        Some(t) => (if now_ms >= t { now_ms - t } else { 0 }) < DEAL_COOLDOWN_MS,
        None => false,
    }
}

impl DealLedgers {
    /// Each ledger is well formed and no total exceeds its daily cap.
    pub closed spec fn wf(&self) -> bool {
        &&& self.npc_granted.wf()
        &&& self.player_received.wf()
        &&& self.last_accepted_offer.wf()
        &&& forall|n: Seq<char>| 0 <= #[trigger] self.npc_granted.amount(n) <= MERCHANT_DAILY_DISCOUNT_BUDGET
        &&& forall|n: Seq<char>| 0 <= #[trigger] self.player_received.amount(n) <= PLAYER_DAILY_DISCOUNT_CAP
    }

    /// The discount granted today by trader `n`.
    pub open spec fn granted(&self, n: Seq<char>) -> int {
        self.npc_granted.amount(n)
    }

    /// The discount received today by player `n`.
    pub open spec fn received(&self, n: Seq<char>) -> int {
        self.player_received.amount(n)
    }

    /// The time of the last accepted offer from trader `a` to player `b`.
    pub open spec fn last_offer(&self, a: Seq<char>, b: Seq<char>) -> Option<u64> {
        self.last_accepted_offer.last(a, b)
    }

    /// Whether the ledgers are those of a fresh day.
    pub open spec fn is_fresh(&self, game_day: i64) -> bool {
        &&& self.game_day == game_day
        &&& forall|n: Seq<char>| self.granted(n) == 0 && self.received(n) == 0
        &&& forall|a: Seq<char>, b: Seq<char>| self.last_offer(a, b).is_none()
    }

    /// Whether `self` holds what `other` holds once rolled over to
    /// `game_day`: `other`'s totals and clocks when it is of that day,
    /// a fresh day's (zero totals, no clocks) otherwise.
    pub open spec fn rolled_from(&self, other: &DealLedgers, game_day: i64) -> bool {
        let same = other.game_day == game_day;
        &&& self.game_day == game_day
        &&& forall|n: Seq<char>| #[trigger] self.granted(n) == (if same { other.granted(n) } else { 0 })
        &&& forall|n: Seq<char>| #[trigger] self.received(n) == (if same { other.received(n) } else { 0 })
        &&& forall|a: Seq<char>, b: Seq<char>| #[trigger] self.last_offer(a, b)
            == (if same { other.last_offer(a, b) } else { None::<u64> })
    }

    /// Empty ledgers for the given game day.
    pub fn new(game_day: i64) -> (r: DealLedgers)
        ensures
            r.wf(),
            r.is_fresh(game_day),
    {
        DealLedgers {
            game_day,
            npc_granted: NameLedger::new(),
            player_received: NameLedger::new(),
            last_accepted_offer: PairClock::new(),
        }
    }

    /// Reset every ledger when `game_day` differs from the recorded day.
    pub fn roll_over_if_needed(&mut self, game_day: i64)
        requires
            old(self).wf(),
        ensures
            final(self).wf(),
            old(self).game_day != game_day ==> final(self).is_fresh(game_day),
            old(self).game_day == game_day ==> *final(self) == *old(self),
    {
        if self.game_day != game_day {
            *self = DealLedgers::new(game_day);
        }
    }

    /// Charge an accepted offer of `cost` from trader `merchant` to player
    /// `player` at `now_ms`: rejected while the pair's cooldown runs, or when
    /// either daily budget would be exceeded; otherwise both totals grow by
    /// `cost` and the pair's clock is set to `now_ms`.
    pub fn charge(&mut self, merchant: &String, player: &String, cost: i64, now_ms: u64) -> (r: Result<(), DealRejection>)
        requires
            old(self).wf(),
            0 <= cost,
        ensures
            final(self).wf(),
            final(self).game_day == old(self).game_day,
            cooling_down(old(self).last_offer(merchant@, player@), now_ms) ==> r == Err::<(), DealRejection>(DealRejection::CooldownActive),
            !cooling_down(old(self).last_offer(merchant@, player@), now_ms)
                && old(self).granted(merchant@) + cost > MERCHANT_DAILY_DISCOUNT_BUDGET
                ==> r == Err::<(), DealRejection>(DealRejection::TraderBudgetExhausted),
            !cooling_down(old(self).last_offer(merchant@, player@), now_ms)
                && old(self).granted(merchant@) + cost <= MERCHANT_DAILY_DISCOUNT_BUDGET
                && old(self).received(player@) + cost > PLAYER_DAILY_DISCOUNT_CAP
                ==> r == Err::<(), DealRejection>(DealRejection::PlayerLimitReached),
            r.is_err() <==> (cooling_down(old(self).last_offer(merchant@, player@), now_ms)
                || old(self).granted(merchant@) + cost > MERCHANT_DAILY_DISCOUNT_BUDGET
                || old(self).received(player@) + cost > PLAYER_DAILY_DISCOUNT_CAP),
            r.is_err() ==> final(self).npc_granted == old(self).npc_granted
                && final(self).player_received == old(self).player_received
                && final(self).last_accepted_offer == old(self).last_accepted_offer,
            r.is_ok() ==> {
                &&& final(self).granted(merchant@) == old(self).granted(merchant@) + cost
                &&& forall|n: Seq<char>| n != merchant@ ==> final(self).granted(n) == old(self).granted(n)
                &&& final(self).received(player@) == old(self).received(player@) + cost
                &&& forall|n: Seq<char>| n != player@ ==> final(self).received(n) == old(self).received(n)
                &&& final(self).last_offer(merchant@, player@) == Some(now_ms)
                &&& forall|a: Seq<char>, b: Seq<char>| !(a == merchant@ && b == player@)
                    ==> final(self).last_offer(a, b) == old(self).last_offer(a, b)
            },
    {
        if let Some(last) = self.last_accepted_offer.get(merchant, player) {
            let elapsed: u64 = if now_ms >= last { now_ms - last } else { 0 };
            if elapsed < DEAL_COOLDOWN_MS {
                return Err(DealRejection::CooldownActive);
            }
        }
        let granted = self.npc_granted.get(merchant);
        if cost > MERCHANT_DAILY_DISCOUNT_BUDGET - granted {
            return Err(DealRejection::TraderBudgetExhausted);
        }
        let received = self.player_received.get(player);
        if cost > PLAYER_DAILY_DISCOUNT_CAP - received {
            return Err(DealRejection::PlayerLimitReached);
        }
        self.npc_granted.set(merchant, granted + cost);
        self.player_received.set(player, received + cost);
        self.last_accepted_offer.set(merchant, player, now_ms);
        proof {
            assert forall|n: Seq<char>| 0 <= #[trigger] self.npc_granted.amount(n) <= MERCHANT_DAILY_DISCOUNT_BUDGET by {
                if n != merchant@ {
                    assert(self.npc_granted.amount(n) == old(self).npc_granted.amount(n));
                }
            }
            assert forall|n: Seq<char>| 0 <= #[trigger] self.player_received.amount(n) <= PLAYER_DAILY_DISCOUNT_CAP by {
                if n != player@ {
                    assert(self.player_received.amount(n) == old(self).player_received.amount(n));
                }
            }
        }
        Ok(())
    }
}

// ---------------------------------------------------------------------------
// Live deals
// ---------------------------------------------------------------------------

/// A granted, not-yet-redeemed deal. Single-use.
#[derive(Debug, Clone, Copy, PartialEq, Eq, Structural)]
pub struct DealEntry {
    pub modifier_pct: i32,
    pub expires_at_ms: u64,
}

/// Which deal: the player it was granted to, the trader, the item and the
/// direction of the trade.
pub struct DealKey {
    pub player_id: u64,
    pub merchant_name: String,
    pub item_def_id: String,
    pub kind: DealKind,
}

/// A deal key as plain values.
pub type DealKeyView = (u64, Seq<char>, Seq<char>, DealKind);

impl DealKey {
    pub open spec fn key_view(&self) -> DealKeyView {
        (self.player_id, self.merchant_name@, self.item_def_id@, self.kind)
    }

    fn same(&self, other: &DealKey) -> (b: bool)
        ensures
            b == (self.key_view() == other.key_view()),
    {
        self.player_id == other.player_id && self.merchant_name == other.merchant_name
            && self.item_def_id == other.item_def_id && self.kind == other.kind
    }

    fn copy_key(&self) -> (r: DealKey)
        ensures
            r == *self,
    {
        DealKey {
            player_id: self.player_id,
            merchant_name: self.merchant_name.clone(),
            item_def_id: self.item_def_id.clone(),
            kind: self.kind,
        }
    }
}

/// The daily caps: in well-formed ledgers no trader has granted more than
/// `MERCHANT_DAILY_DISCOUNT_BUDGET` and no player has received more than
/// `PLAYER_DAILY_DISCOUNT_CAP` today, and no total is negative.
pub proof fn lemma_daily_caps(l: &DealLedgers)
    requires
        l.wf(),
    ensures
        forall|n: Seq<char>| 0 <= #[trigger] l.granted(n) <= MERCHANT_DAILY_DISCOUNT_BUDGET,
        forall|n: Seq<char>| 0 <= #[trigger] l.received(n) <= PLAYER_DAILY_DISCOUNT_CAP,
{
    assert forall|n: Seq<char>| 0 <= #[trigger] l.granted(n) <= MERCHANT_DAILY_DISCOUNT_BUDGET by {
        assert(0 <= l.npc_granted.amount(n));
    }
    assert forall|n: Seq<char>| 0 <= #[trigger] l.received(n) <= PLAYER_DAILY_DISCOUNT_CAP by {
        assert(0 <= l.player_received.amount(n));
    }
}

/// A live deal as reported to the player: item, direction, modifier and
/// whole seconds left.
#[derive(Debug, PartialEq, Eq)]
pub struct ActiveDeal {
    pub item_def_id: String,
    pub kind: DealKind,
    pub modifier_pct: i32,
    pub expires_in_secs: u32,
}

/// The live deals, one per key.
pub struct DealBook {
    entries: Vec<(DealKey, DealEntry)>,
}

impl DealBook {
    /// No key occurs twice.
    pub closed spec fn wf(&self) -> bool {
        forall|i: int, j: int|
            0 <= i < j < self.entries@.len() ==> (#[trigger] self.entries@[i]).0.key_view() != (#[trigger] self.entries@[j]).0.key_view()
    }

    closed spec fn has(&self, k: DealKeyView) -> bool {
        exists|i: int| 0 <= i < self.entries@.len() && (#[trigger] self.entries@[i]).0.key_view() == k
    }

    /// The deals as a map from key to entry.
    pub closed spec fn view(&self) -> Map<DealKeyView, DealEntry> {
        Map::new(
            |k: DealKeyView| self.has(k),
            |k: DealKeyView| {
                let i = choose|i: int| 0 <= i < self.entries@.len() && (#[trigger] self.entries@[i]).0.key_view() == k;
                self.entries@[i].1
            },
        )
    }

    proof fn lemma_view_at(&self, i: int)
        requires
            self.wf(),
            0 <= i < self.entries@.len(),
        ensures
            self.view().dom().contains(self.entries@[i].0.key_view()),
            self.view()[self.entries@[i].0.key_view()] == self.entries@[i].1,
    {
        let k = self.entries@[i].0.key_view();
        assert(self.has(k));
        let j = choose|j: int| 0 <= j < self.entries@.len() && (#[trigger] self.entries@[j]).0.key_view() == k;
        if j != i {
            if i < j {
                assert(self.entries@[i].0.key_view() != self.entries@[j].0.key_view());
            } else {
                assert(self.entries@[j].0.key_view() != self.entries@[i].0.key_view());
            }
        }
    }

    /// No live deals.
    pub fn new() -> (r: DealBook)
        ensures
            r.wf(),
            r.view() == Map::<DealKeyView, DealEntry>::empty(),
    {
        let r = DealBook { entries: Vec::new() };
        proof {
            assert(r.view() =~= Map::<DealKeyView, DealEntry>::empty());
        }
        r
    }

    fn find(&self, key: &DealKey) -> (r: Option<usize>)
        requires
            self.wf(),
        ensures
            match r {
                Some(i) => i < self.entries@.len() && self.entries@[i as int].0.key_view() == key.key_view(),
                None => !self.view().dom().contains(key.key_view()),
            },
    {
        let mut i: usize = 0;
        while i < self.entries.len()
            invariant
                i <= self.entries@.len(),
                forall|j: int| 0 <= j < i ==> (#[trigger] self.entries@[j]).0.key_view() != key.key_view(),
            decreases self.entries.len() - i,
        {
            if self.entries[i].0.same(key) {
                return Some(i);
            }
            i = i + 1;
        }
        None
    }

    /// Stores `entry` under `key`, replacing any deal with the same key.
    pub fn insert(&mut self, key: DealKey, entry: DealEntry)
        requires
            old(self).wf(),
        ensures
            final(self).wf(),
            final(self).view() == old(self).view().insert(key.key_view(), entry),
    {
        let ghost old_self = DealBook { entries: self.entries };
        let ghost kv = key.key_view();
        match self.find(&key) {
            Some(i) => {
                self.entries.set(i, (key, entry));
                proof {
                    assert(self.wf());
                    self.lemma_view_at(i as int);
                    assert forall|k: DealKeyView| #[trigger] self.view().dom().contains(k) == old_self.view().insert(kv, entry).dom().contains(k) by {
                        if k != kv && old_self.has(k) {
                            let j = choose|j: int| 0 <= j < old_self.entries@.len() && (#[trigger] old_self.entries@[j]).0.key_view() == k;
                            assert(self.entries@[j] == old_self.entries@[j]);
                        }
                        if self.has(k) && k != kv {
                            let j = choose|j: int| 0 <= j < self.entries@.len() && (#[trigger] self.entries@[j]).0.key_view() == k;
                            assert(old_self.entries@[j] == self.entries@[j]);
                        }
                    }
                    assert forall|k: DealKeyView| #[trigger] self.view().dom().contains(k) && k != kv implies self.view()[k] == old_self.view()[k] by {
                        let j = choose|j: int| 0 <= j < self.entries@.len() && (#[trigger] self.entries@[j]).0.key_view() == k;
                        self.lemma_view_at(j);
                        assert(old_self.entries@[j] == self.entries@[j]);
                        old_self.lemma_view_at(j);
                    }
                    assert(self.view() =~= old_self.view().insert(kv, entry));
                }
            },
            None => {
                self.entries.push((key, entry));
                proof {
                    let last = old_self.entries@.len() as int;
                    assert(self.wf());
                    self.lemma_view_at(last);
                    assert forall|k: DealKeyView| #[trigger] self.view().dom().contains(k) == old_self.view().insert(kv, entry).dom().contains(k) by {
                        if k != kv && old_self.has(k) {
                            let j = choose|j: int| 0 <= j < old_self.entries@.len() && (#[trigger] old_self.entries@[j]).0.key_view() == k;
                            assert(self.entries@[j] == old_self.entries@[j]);
                        }
                        if self.has(k) && k != kv {
                            let j = choose|j: int| 0 <= j < self.entries@.len() && (#[trigger] self.entries@[j]).0.key_view() == k;
                            assert(old_self.entries@[j] == self.entries@[j]);
                        }
                    }
                    assert forall|k: DealKeyView| #[trigger] self.view().dom().contains(k) && k != kv implies self.view()[k] == old_self.view()[k] by {
                        let j = choose|j: int| 0 <= j < self.entries@.len() && (#[trigger] self.entries@[j]).0.key_view() == k;
                        self.lemma_view_at(j);
                        assert(old_self.entries@[j] == self.entries@[j]);
                        old_self.lemma_view_at(j);
                    }
                    assert(self.view() =~= old_self.view().insert(kv, entry));
                }
            },
        }
    }

    /// Removes the deal under `key`, if any, and returns its entry.
    pub fn remove(&mut self, key: &DealKey) -> (r: Option<DealEntry>)
        requires
            old(self).wf(),
        ensures
            final(self).wf(),
            final(self).view() == old(self).view().remove(key.key_view()),
            r == (if old(self).view().dom().contains(key.key_view()) {
                Some(old(self).view()[key.key_view()])
            } else {
                None::<DealEntry>
            }),
    {
        let ghost old_self = DealBook { entries: self.entries };
        let ghost kv = key.key_view();
        match self.find(key) {
            Some(i) => {
                proof {
                    old_self.lemma_view_at(i as int);
                }
                let (_, e) = self.entries.remove(i);
                proof {
                    assert(self.wf()) by {
                        assert forall|a: int, b: int| 0 <= a < b < self.entries@.len() implies
                            (#[trigger] self.entries@[a]).0.key_view() != (#[trigger] self.entries@[b]).0.key_view() by {
                            let oa = if a < i { a } else { a + 1 };
                            let ob = if b < i { b } else { b + 1 };
                            assert(self.entries@[a] == old_self.entries@[oa]);
                            assert(self.entries@[b] == old_self.entries@[ob]);
                        }
                    }
                    assert forall|k: DealKeyView| #[trigger] self.view().dom().contains(k) == old_self.view().remove(kv).dom().contains(k) by {
                        if k != kv && old_self.has(k) {
                            let j = choose|j: int| 0 <= j < old_self.entries@.len() && (#[trigger] old_self.entries@[j]).0.key_view() == k;
                            assert(j != i);
                            let nj = if j < i { j } else { j - 1 };
                            assert(self.entries@[nj] == old_self.entries@[j]);
                        }
                        if self.has(k) {
                            let j = choose|j: int| 0 <= j < self.entries@.len() && (#[trigger] self.entries@[j]).0.key_view() == k;
                            let oj = if j < i { j } else { j + 1 };
                            assert(self.entries@[j] == old_self.entries@[oj]);
                            assert(oj != i);
                            if k == kv {
                                if oj < i {
                                    assert(old_self.entries@[oj].0.key_view() != old_self.entries@[i as int].0.key_view());
                                } else {
                                    assert(old_self.entries@[i as int].0.key_view() != old_self.entries@[oj].0.key_view());
                                }
                            }
                        }
                    }
                    assert forall|k: DealKeyView| #[trigger] self.view().dom().contains(k) implies self.view()[k] == old_self.view()[k] by {
                        let j = choose|j: int| 0 <= j < self.entries@.len() && (#[trigger] self.entries@[j]).0.key_view() == k;
                        self.lemma_view_at(j);
                        let oj = if j < i { j } else { j + 1 };
                        assert(self.entries@[j] == old_self.entries@[oj]);
                        old_self.lemma_view_at(oj);
                    }
                    assert(self.view() =~= old_self.view().remove(kv));
                }
                Some(e)
            },
            None => {
                proof {
                    assert(self.view() =~= old_self.view().remove(kv));
                }
                None
            },
        }
    }

    /// Drops every deal whose expiry is not after `now_ms`.
    pub fn retain_unexpired(&mut self, now_ms: u64)
        requires
            old(self).wf(),
        ensures
            final(self).wf(),
            final(self).view() == old(self).view().restrict(
                old(self).view().dom().filter(|k: DealKeyView| old(self).view()[k].expires_at_ms > now_ms),
            ),
    {
        let ghost old_self = DealBook { entries: self.entries };
        let ghost old_view = old_self.view();
        let mut kept: Vec<(DealKey, DealEntry)> = Vec::new();
        let ghost mut idx: Seq<int> = Seq::empty();
        let mut i: usize = 0;
        while i < self.entries.len()
            invariant
                i <= self.entries@.len(),
                self.entries@ == old_self.entries@,
                old_self.wf(),
                idx.len() == kept@.len(),
                forall|a: int| 0 <= a < kept@.len() ==> 0 <= #[trigger] idx[a] < i
                    && kept@[a] == old_self.entries@[idx[a]]
                    && old_self.entries@[idx[a]].1.expires_at_ms > now_ms,
                forall|a1: int, a2: int| 0 <= a1 < a2 < kept@.len() ==> #[trigger] idx[a1] < #[trigger] idx[a2],
                forall|b: int| 0 <= b < i && (#[trigger] old_self.entries@[b]).1.expires_at_ms > now_ms
                    ==> exists|a: int| 0 <= a < kept@.len() && idx[a] == b,
            decreases self.entries.len() - i,
        {
            if self.entries[i].1.expires_at_ms > now_ms {
                let k = self.entries[i].0.copy_key();
                let e = self.entries[i].1;
                kept.push((k, e));
                proof {
                    let n = idx.len() as int;
                    let old_idx = idx;
                    idx = idx.push(i as int);
                    assert forall|b: int| 0 <= b < i + 1 && (#[trigger] old_self.entries@[b]).1.expires_at_ms > now_ms
                        implies exists|a: int| 0 <= a < kept@.len() && idx[a] == b by {
                        if b == i {
                            assert(idx[n] == b);
                        } else {
                            let a = choose|a: int| 0 <= a < old_idx.len() && old_idx[a] == b;
                            assert(idx[a] == b);
                        }
                    }
                }
            }
            i = i + 1;
        }
        self.entries = kept;
        proof {
            assert(self.wf()) by {
                assert forall|a1: int, a2: int| 0 <= a1 < a2 < self.entries@.len() implies
                    (#[trigger] self.entries@[a1]).0.key_view() != (#[trigger] self.entries@[a2]).0.key_view() by {
                    assert(idx[a1] < idx[a2]);
                    assert(old_self.entries@[idx[a1]].0.key_view() != old_self.entries@[idx[a2]].0.key_view());
                }
            }
            let target = old_view.restrict(old_view.dom().filter(|k: DealKeyView| old_view[k].expires_at_ms > now_ms));
            assert forall|k: DealKeyView| #[trigger] self.view().dom().contains(k) == target.dom().contains(k) by {
                if self.has(k) {
                    let a = choose|a: int| 0 <= a < self.entries@.len() && (#[trigger] self.entries@[a]).0.key_view() == k;
                    old_self.lemma_view_at(idx[a]);
                }
                if target.dom().contains(k) {
                    let b = choose|b: int| 0 <= b < old_self.entries@.len() && (#[trigger] old_self.entries@[b]).0.key_view() == k;
                    old_self.lemma_view_at(b);
                    let a = choose|a: int| 0 <= a < self.entries@.len() && idx[a] == b;
                    assert(self.entries@[a].0.key_view() == k);
                }
            }
            assert forall|k: DealKeyView| #[trigger] self.view().dom().contains(k) implies self.view()[k] == target[k] by {
                let a = choose|a: int| 0 <= a < self.entries@.len() && (#[trigger] self.entries@[a]).0.key_view() == k;
                self.lemma_view_at(a);
                old_self.lemma_view_at(idx[a]);
            }
            assert(self.view() =~= target);
        }
    }

    /// Removes the deal under `key` and returns it when it has not expired
    /// by `now_ms` (an expired deal is dropped and `None` returned).
    pub fn take(&mut self, key: &DealKey, now_ms: u64) -> (r: Option<DealEntry>)
        requires
            old(self).wf(),
        ensures
            final(self).wf(),
            (final(self).view(), r) == take_spec(old(self).view(), key.key_view(), now_ms),
    {
        match self.remove(key) {
            Some(e) => if e.expires_at_ms > now_ms { Some(e) } else { None },
            None => None,
        }
    }

    /// Puts back a deal taken by `take` after a failed trade; nothing
    /// happens for `None`.
    pub fn restore(&mut self, key: DealKey, entry: Option<DealEntry>)
        requires
            old(self).wf(),
        ensures
            final(self).wf(),
            final(self).view() == restore_spec(old(self).view(), key.key_view(), entry),
    {
        if let Some(e) = entry {
            self.insert(key, e);
        }
    }

    /// The live deals of `player_id` with trader `merchant_name` at `now_ms`.
    pub fn active_for(&self, player_id: u64, merchant_name: &String, now_ms: u64) -> (r: Vec<ActiveDeal>)
        requires
            self.wf(),
        ensures
            forall|a: int| 0 <= a < r@.len() ==> {
                let k: DealKeyView = (player_id, merchant_name@, (#[trigger] r@[a]).item_def_id@, r@[a].kind);
                &&& self.view().dom().contains(k)
                &&& self.view()[k].expires_at_ms > now_ms
                &&& r@[a].modifier_pct == self.view()[k].modifier_pct
                &&& r@[a].expires_in_secs == ((self.view()[k].expires_at_ms - now_ms) / 1000) as u32
            },
            forall|k: DealKeyView| #[trigger] self.view().dom().contains(k) && k.0 == player_id && k.1 == merchant_name@
                && self.view()[k].expires_at_ms > now_ms
                ==> exists|a: int| 0 <= a < r@.len() && r@[a].item_def_id@ == k.2 && r@[a].kind == k.3,
            forall|a1: int, a2: int| 0 <= a1 < a2 < r@.len()
                ==> !((#[trigger] r@[a1]).item_def_id@ == (#[trigger] r@[a2]).item_def_id@ && r@[a1].kind == r@[a2].kind),
    {
        let mut r: Vec<ActiveDeal> = Vec::new();
        let ghost mut idx: Seq<int> = Seq::empty();
        let mut i: usize = 0;
        while i < self.entries.len()
            invariant
                i <= self.entries@.len(),
                self.wf(),
                idx.len() == r@.len(),
                forall|a: int| 0 <= a < r@.len() ==> {
                    let e = self.entries@[#[trigger] idx[a]];
                    &&& 0 <= idx[a] < i
                    &&& e.0.player_id == player_id
                    &&& e.0.merchant_name@ == merchant_name@
                    &&& e.1.expires_at_ms > now_ms
                    &&& r@[a].item_def_id@ == e.0.item_def_id@
                    &&& r@[a].kind == e.0.kind
                    &&& r@[a].modifier_pct == e.1.modifier_pct
                    &&& r@[a].expires_in_secs == ((e.1.expires_at_ms - now_ms) / 1000) as u32
                },
                forall|a1: int, a2: int| 0 <= a1 < a2 < r@.len() ==> #[trigger] idx[a1] < #[trigger] idx[a2],
                forall|b: int| 0 <= b < i && (#[trigger] self.entries@[b]).0.player_id == player_id
                    && self.entries@[b].0.merchant_name@ == merchant_name@ && self.entries@[b].1.expires_at_ms > now_ms
                    ==> exists|a: int| 0 <= a < r@.len() && idx[a] == b,
            decreases self.entries.len() - i,
        {
            let e = &self.entries[i];
            if e.0.player_id == player_id && e.0.merchant_name == *merchant_name && e.1.expires_at_ms > now_ms {
                let secs: u32 = ((e.1.expires_at_ms - now_ms) / 1000) as u32;
                r.push(ActiveDeal {
                    item_def_id: e.0.item_def_id.clone(),
                    kind: e.0.kind,
                    modifier_pct: e.1.modifier_pct,
                    expires_in_secs: secs,
                });
                proof {
                    let old_idx = idx;
                    idx = idx.push(i as int);
                    assert forall|b: int| 0 <= b < i + 1 && (#[trigger] self.entries@[b]).0.player_id == player_id
                        && self.entries@[b].0.merchant_name@ == merchant_name@ && self.entries@[b].1.expires_at_ms > now_ms
                        implies exists|a: int| 0 <= a < r@.len() && idx[a] == b by {
                        if b == i {
                            assert(idx[old_idx.len() as int] == b);
                        } else {
                            let a = choose|a: int| 0 <= a < old_idx.len() && old_idx[a] == b;
                            assert(idx[a] == b);
                        }
                    }
                }
            }
            i = i + 1;
        }
        proof {
            assert forall|a: int| 0 <= a < r@.len() implies {
                let k: DealKeyView = (player_id, merchant_name@, (#[trigger] r@[a]).item_def_id@, r@[a].kind);
                &&& self.view().dom().contains(k)
                &&& self.view()[k].expires_at_ms > now_ms
                &&& r@[a].modifier_pct == self.view()[k].modifier_pct
                &&& r@[a].expires_in_secs == ((self.view()[k].expires_at_ms - now_ms) / 1000) as u32
            } by {
                self.lemma_view_at(idx[a]);
            }
            assert forall|k: DealKeyView| #[trigger] self.view().dom().contains(k) && k.0 == player_id && k.1 == merchant_name@
                && self.view()[k].expires_at_ms > now_ms
                implies exists|a: int| 0 <= a < r@.len() && r@[a].item_def_id@ == k.2 && r@[a].kind == k.3 by {
                let b = choose|b: int| 0 <= b < self.entries@.len() && (#[trigger] self.entries@[b]).0.key_view() == k;
                self.lemma_view_at(b);
                let a = choose|a: int| 0 <= a < r@.len() && idx[a] == b;
                assert(r@[a].item_def_id@ == k.2 && r@[a].kind == k.3);
            }
            assert forall|a1: int, a2: int| 0 <= a1 < a2 < r@.len()
                implies !((#[trigger] r@[a1]).item_def_id@ == (#[trigger] r@[a2]).item_def_id@ && r@[a1].kind == r@[a2].kind) by {
                assert(idx[a1] < idx[a2]);
                assert(self.entries@[idx[a1]].0.key_view() != self.entries@[idx[a2]].0.key_view());
            }
        }
        r
    }
}

/// The resident band is always exactly twice the merchant band, at every
/// CHA: doubling the merchant width before clamping, with both limits
/// doubled, doubles the clamped width.
pub proof fn lemma_resident_band_doubles_merchant(cha: int)
    ensures
        resident_half_band_spec(cha) == 2 * deal_half_band_spec(cha),
        cha >= 18 ==> resident_half_band_spec(cha) == RESIDENT_MAX_HALF_BAND_PCT,
{
}

/// At CHA 10 the merchant band is the base width, and between the limits
/// each point of CHA widens it by two points.
pub proof fn lemma_merchant_band_steps(cha: int)
    ensures
        deal_half_band_spec(10) == DEAL_BASE_HALF_BAND_PCT,
        8 <= cha <= 16 ==> deal_half_band_spec(cha + 1) == deal_half_band_spec(cha) + 2,
        cha <= 7 ==> deal_half_band_spec(cha) == DEAL_MIN_HALF_BAND_PCT,
        cha >= 18 ==> deal_half_band_spec(cha) == DEAL_MAX_HALF_BAND_PCT,
{
}

/// Buying prices: at modifier 0 the base price is paid; a larger modifier
/// never costs less; a discount never costs more than the base price; and
/// every price is at least 1.
pub proof fn lemma_buy_price_laws(base_price: int, m1: int, m2: int)
    requires
        base_price >= 1,
        -100 <= m1 <= m2,
    ensures
        buy_price_spec(base_price, 0) == base_price,
        buy_price_spec(base_price, m1) <= buy_price_spec(base_price, m2),
        m1 <= 0 ==> buy_price_spec(base_price, m1) <= base_price,
        m1 >= 0 ==> buy_price_spec(base_price, m1) >= base_price,
        buy_price_spec(base_price, m1) >= 1,
{
    assert((base_price * 100) / 100 == base_price) by (nonlinear_arith);
    assert(0 <= base_price * (100 + m1) <= base_price * (100 + m2)) by (nonlinear_arith)
        requires base_price >= 1, -100 <= m1 <= m2;
    assert((base_price * (100 + m1)) / 100 <= (base_price * (100 + m2)) / 100) by (nonlinear_arith)
        requires 0 <= base_price * (100 + m1) <= base_price * (100 + m2);
    if m1 <= 0 {
        assert(base_price * (100 + m1) <= base_price * 100) by (nonlinear_arith)
            requires base_price >= 1, m1 <= 0;
        assert((base_price * (100 + m1)) / 100 <= (base_price * 100) / 100) by (nonlinear_arith)
            requires 0 <= base_price * (100 + m1) <= base_price * 100;
    } else {
        assert(base_price * (100 + m1) >= base_price * 100) by (nonlinear_arith)
            requires base_price >= 1, m1 >= 0;
        assert((base_price * (100 + m1)) / 100 >= (base_price * 100) / 100) by (nonlinear_arith)
            requires base_price * (100 + m1) >= base_price * 100, base_price >= 1;
    }
}

/// What a bought deal costs the trader is the discount it gives: the base
/// price minus the price paid, and nothing for a surcharge.
pub proof fn lemma_buy_cost_is_discount(base_price: int, sell_rate_percent: int, modifier_pct: int)
    requires
        base_price >= 1,
        -100 <= modifier_pct,
    ensures
        modifier_pct <= 0 ==> deal_cost_spec(base_price, sell_rate_percent, DealKind::Buy, modifier_pct)
            == base_price - buy_price_spec(base_price, modifier_pct),
        modifier_pct >= 0 ==> deal_cost_spec(base_price, sell_rate_percent, DealKind::Buy, modifier_pct) == 0,
{
    lemma_buy_price_laws(base_price, modifier_pct, modifier_pct);
}

/// Selling payouts: a larger modifier never pays less; at modifier 0 the
/// payout is the sell rate's share of the base price (rounded down, at
/// least 1); and what a sold deal costs the trader is the extra payout
/// over modifier 0, nothing for a cut.
pub proof fn lemma_sell_payout_laws(base_price: int, rate: int, m1: int, m2: int)
    requires
        base_price >= 1,
        rate >= 0,
        -100 <= m1 <= m2,
    ensures
        sell_payout_spec(base_price, rate, m1) <= sell_payout_spec(base_price, rate, m2),
        sell_payout_spec(base_price, rate, 0) == at_least((base_price * rate) / 100, 1),
        m1 <= 0 ==> deal_cost_spec(base_price, rate, DealKind::Sell, m1) == 0,
        m1 >= 0 ==> deal_cost_spec(base_price, rate, DealKind::Sell, m1)
            == sell_payout_spec(base_price, rate, m1) - sell_payout_spec(base_price, rate, 0),
{
    let br = base_price * rate;
    assert(br >= 0) by (nonlinear_arith) requires br == base_price * rate, base_price >= 1, rate >= 0;
    assert(base_price * rate * (100 + m1) == br * (100 + m1)) by (nonlinear_arith) requires br == base_price * rate;
    assert(base_price * rate * (100 + m2) == br * (100 + m2)) by (nonlinear_arith) requires br == base_price * rate;
    assert(base_price * rate * (100 + 0) == br * 100) by (nonlinear_arith) requires br == base_price * rate;
    assert(0 <= br * (100 + m1) <= br * (100 + m2)) by (nonlinear_arith)
        requires br >= 0, -100 <= m1 <= m2;
    assert((br * (100 + m1)) / 10000 <= (br * (100 + m2)) / 10000) by (nonlinear_arith)
        requires 0 <= br * (100 + m1) <= br * (100 + m2);
    assert((br * 100) / 10000 == br / 100) by (nonlinear_arith) requires br >= 0;
    if m1 <= 0 {
        assert(br * (100 + m1) <= br * 100) by (nonlinear_arith) requires br >= 0, m1 <= 0;
        assert((br * (100 + m1)) / 10000 <= (br * 100) / 10000) by (nonlinear_arith)
            requires 0 <= br * (100 + m1) <= br * 100;
    } else {
        assert(br * (100 + m1) >= br * 100) by (nonlinear_arith) requires br >= 0, m1 >= 0;
        assert((br * (100 + m1)) / 10000 >= (br * 100) / 10000) by (nonlinear_arith)
            requires br * (100 + m1) >= br * 100, br >= 0;
    }
}

} // verus!
