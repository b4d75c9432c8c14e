use vstd::prelude::*;

use crate::bet::{vig_of, Bet, BetType};
use crate::roll::Roll;
use crate::table::TableState;

verus! {

#[derive(Debug)]
pub enum PlayerError {
    NotEnoughBankroll(),
    DuplicateBet(Bet),
    CantRemoveBet(Bet),
    DontHaveBet(Bet),
}

/// The mathematical face of a ledger: the active bets in order, the
/// bankroll, and the total currently wagered.
pub struct LedgerModel {
    pub bets: Seq<Bet>,
    pub bankroll: int,
    pub wagered: int,
}

/// Sum of the amounts of a sequence of bets.
pub open spec fn amount_sum(s: Seq<Bet>) -> int
    decreases s.len(),
{
    if s.len() == 0 {
        0
    } else {
        amount_sum(s.drop_last()) + s.last().amount
    }
}

/// The vigorish a bet paid at placement, if its type pays one up front.
pub open spec fn upfront_vig(b: Bet) -> int {
    if b.bet_type.has_upfront_vig() {
        vig_of(b.amount)
    } else {
        0
    }
}

/// Sum of the up-front vigorish held against a sequence of bets.
pub open spec fn vig_sum(s: Seq<Bet>) -> int
    decreases s.len(),
{
    if s.len() == 0 {
        0
    } else {
        vig_sum(s.drop_last()) + upfront_vig(s.last())
    }
}

/// All money a ledger is answerable for: the bankroll, the wagered stakes,
/// and the vigorish held up front against buy and lay bets.
pub open spec fn money_total(m: LedgerModel) -> int {
    m.bankroll + m.wagered + vig_sum(m.bets)
}

/// Whether a bet occupies the (type, point) slot.
pub open spec fn key_matches(b: Bet, bt: BetType, point: Option<u8>) -> bool {
    b.bet_type == bt && b.point == point
}

/// How many bets occupy the (type, point) slot.
pub open spec fn key_count(s: Seq<Bet>, bt: BetType, point: Option<u8>) -> int
    decreases s.len(),
{
    if s.len() == 0 {
        0
    } else {
        key_count(s.drop_last(), bt, point) + if key_matches(s.last(), bt, point) {
            1int
        } else {
            0int
        }
    }
}

pub open spec fn has_key(s: Seq<Bet>, bt: BetType, point: Option<u8>) -> bool {
    key_count(s, bt, point) > 0
}

/// No two bets share a (type, point) slot.
pub open spec fn unique_keys(s: Seq<Bet>) -> bool {
    forall|bt: BetType, point: Option<u8>| #[trigger] key_count(s, bt, point) <= 1
}

/// The bets of `s` that occupy the (type, point) slot, in order.
pub open spec fn bets_with_key(s: Seq<Bet>, bt: BetType, point: Option<u8>) -> Seq<Bet>
    decreases s.len(),
{
    if s.len() == 0 {
        Seq::empty()
    } else {
        bets_with_key(s.drop_last(), bt, point) + if key_matches(s.last(), bt, point) {
            seq![s.last()]
        } else {
            Seq::empty()
        }
    }
}

/// The bets of `s` outside the (type, point) slot, in order.
pub open spec fn bets_without_key(s: Seq<Bet>, bt: BetType, point: Option<u8>) -> Seq<Bet>
    decreases s.len(),
{
    if s.len() == 0 {
        Seq::empty()
    } else {
        bets_without_key(s.drop_last(), bt, point) + if key_matches(s.last(), bt, point) {
            Seq::empty()
        } else {
            seq![s.last()]
        }
    }
}

/// Whether a bet may be taken down: pass and come only before a point is
/// on them, don't pass and don't come only while no odds ride on the same
/// point, and every standalone bet at any time.
pub open spec fn spec_can_remove(bets: Seq<Bet>, b: Bet) -> bool {
    match b.bet_type {
        BetType::Pass | BetType::Come => b.point is None,
        BetType::DontPass => !has_key(bets, BetType::DontPassOdds, b.point),
        BetType::DontCome => !has_key(bets, BetType::DontComeOdds, b.point),
        _ => true,
    }
}

/// What adding a bet does to a ledger: refused as a duplicate when its
/// slot is taken, refused when bankroll cannot cover stake plus up-front
/// vigorish, and otherwise moved from bankroll to the table.
pub open spec fn spec_add_bet(m: LedgerModel, b: Bet) -> (LedgerModel, Result<(), PlayerError>) {
    if has_key(m.bets, b.bet_type, b.point) {
        (m, Err(PlayerError::DuplicateBet(b)))
    } else if b.amount + upfront_vig(b) > m.bankroll {
        (m, Err(PlayerError::NotEnoughBankroll()))
    } else {
        (
            LedgerModel {
                bets: m.bets.push(b),
                bankroll: m.bankroll - b.amount - upfront_vig(b),
                wagered: m.wagered + b.amount,
            },
            Ok(()),
        )
    }
}

/// The first bet of `m` (scanned left to right) that may not be removed
/// from `bets`.
pub open spec fn first_nonremovable(bets: Seq<Bet>, m: Seq<Bet>) -> Bet
    decreases m.len(),
{
    if m.len() == 0 {
        arbitrary()
    } else if !spec_can_remove(bets, m.first()) {
        m.first()
    } else {
        first_nonremovable(bets, m.drop_first())
    }
}

/// What removing every bet in a (type, point) slot does to a ledger:
/// all-or-nothing, refusing when any occupant may not be removed, and
/// otherwise returning each stake and any up-front vigorish to the bankroll.
pub open spec fn spec_remove(m: LedgerModel, bt: BetType, point: Option<u8>) -> (
    LedgerModel,
    Result<Seq<Bet>, PlayerError>,
) {
    let matching = bets_with_key(m.bets, bt, point);
    if exists|i: int| 0 <= i < matching.len() && !spec_can_remove(m.bets, #[trigger] matching[i]) {
        (m, Err(PlayerError::CantRemoveBet(first_nonremovable(m.bets, matching))))
    } else {
        (
            LedgerModel {
                bets: bets_without_key(m.bets, bt, point),
                bankroll: m.bankroll + amount_sum(matching) + vig_sum(matching),
                wagered: m.wagered - amount_sum(matching),
            },
            Ok(matching),
        )
    }
}

proof fn lemma_sums_push(s: Seq<Bet>, b: Bet, bt: BetType, point: Option<u8>)
    ensures
        amount_sum(s.push(b)) == amount_sum(s) + b.amount,
        vig_sum(s.push(b)) == vig_sum(s) + upfront_vig(b),
        key_count(s.push(b), bt, point) == key_count(s, bt, point) + if key_matches(
            b,
            bt,
            point,
        ) {
            1int
        } else {
            0int
        },
        bets_with_key(s.push(b), bt, point) == bets_with_key(s, bt, point) + if key_matches(
            b,
            bt,
            point,
        ) {
            seq![b]
        } else {
            Seq::<Bet>::empty()
        },
        bets_without_key(s.push(b), bt, point) == bets_without_key(s, bt, point) + if key_matches(
            b,
            bt,
            point,
        ) {
            Seq::<Bet>::empty()
        } else {
            seq![b]
        },
{
    assert(s.push(b).drop_last() =~= s);
    assert(s.push(b).last() == b);
}

proof fn lemma_sums_nonneg(s: Seq<Bet>)
    ensures
        amount_sum(s) >= 0,
        vig_sum(s) >= 0,
        forall|bt: BetType, point: Option<u8>| #[trigger] key_count(s, bt, point) >= 0,
    decreases s.len(),
{
    if s.len() > 0 {
        lemma_sums_nonneg(s.drop_last());
        assert forall|bt: BetType, point: Option<u8>| #[trigger] key_count(s, bt, point) >= 0 by {
            assert(key_count(s, bt, point) == key_count(s.drop_last(), bt, point)
                + if key_matches(s.last(), bt, point) {
                1int
            } else {
                0int
            });
        }
    }
}

/// The bets in a slot and the bets outside it split every sum.
proof fn lemma_key_split(s: Seq<Bet>, bt: BetType, point: Option<u8>)
    ensures
        amount_sum(bets_with_key(s, bt, point)) + amount_sum(bets_without_key(s, bt, point))
            == amount_sum(s),
        vig_sum(bets_with_key(s, bt, point)) + vig_sum(bets_without_key(s, bt, point)) == vig_sum(
            s,
        ),
        bets_with_key(s, bt, point).len() == key_count(s, bt, point),
        forall|bt2: BetType, p2: Option<u8>|
            #[trigger] key_count(bets_without_key(s, bt, point), bt2, p2) <= key_count(s, bt2, p2),
        forall|i: int|
            0 <= i < bets_with_key(s, bt, point).len() ==> key_matches(
                #[trigger] bets_with_key(s, bt, point)[i],
                bt,
                point,
            ),
    decreases s.len(),
{
    if s.len() == 0 {
    } else {
        let dl = s.drop_last();
        let b = s.last();
        lemma_key_split(dl, bt, point);
        let w = bets_with_key(dl, bt, point);
        let wo = bets_without_key(dl, bt, point);
        if key_matches(b, bt, point) {
            assert(bets_with_key(s, bt, point) =~= w.push(b));
            assert(bets_without_key(s, bt, point) =~= wo);
            lemma_sums_push(w, b, bt, point);
        } else {
            assert(bets_with_key(s, bt, point) =~= w);
            assert(bets_without_key(s, bt, point) =~= wo.push(b));
            lemma_sums_push(wo, b, bt, point);
            assert forall|bt2: BetType, p2: Option<u8>| #[trigger] key_count(
                bets_without_key(s, bt, point),
                bt2,
                p2,
            ) <= key_count(s, bt2, p2) by {
                lemma_sums_push(wo, b, bt2, p2);
            }
        }
    }
}

/// A sum over a prefix together with the sum over the rest gives the whole.
proof fn lemma_sum_split_at(s: Seq<Bet>, k: int)
    requires
        0 <= k <= s.len(),
    ensures
        amount_sum(s) == amount_sum(s.subrange(0, k)) + amount_sum(s.subrange(k, s.len() as int)),
        vig_sum(s) == vig_sum(s.subrange(0, k)) + vig_sum(s.subrange(k, s.len() as int)),
    decreases s.len() - k,
{
    if k == s.len() {
        assert(s.subrange(0, k) =~= s);
        assert(s.subrange(k, s.len() as int) =~= Seq::empty());
    } else {
        lemma_sum_split_at(s, k + 1);
        assert(s.subrange(0, k + 1) =~= s.subrange(0, k).push(s[k]));
        lemma_sums_push(s.subrange(0, k), s[k], BetType::Pass, None);
        let rest = s.subrange(k, s.len() as int);
        let rest1 = s.subrange(k + 1, s.len() as int);
        assert(rest =~= seq![s[k]] + rest1);
        lemma_cons_sums(s[k], rest1);
    }
}

/// Prepending one bet adds its contribution to each sum.
proof fn lemma_cons_sums(b: Bet, s: Seq<Bet>)
    ensures
        amount_sum(seq![b] + s) == b.amount + amount_sum(s),
        vig_sum(seq![b] + s) == upfront_vig(b) + vig_sum(s),
    decreases s.len(),
{
    let c = seq![b] + s;
    if s.len() == 0 {
        assert(c =~= seq![b]);
        assert(c.drop_last() =~= Seq::empty());
        assert(amount_sum(Seq::<Bet>::empty()) == 0);
        assert(vig_sum(Seq::<Bet>::empty()) == 0);
        assert(c.last() == b);
    } else {
        assert(c.drop_last() =~= seq![b] + s.drop_last());
        lemma_cons_sums(b, s.drop_last());
        assert(c.last() == s.last());
    }
}

/// Identifies the first non-removable bet that a left-to-right scan stops on.
proof fn lemma_first_nonremovable_at(bets: Seq<Bet>, m: Seq<Bet>, i: int)
    requires
        0 <= i < m.len(),
        !spec_can_remove(bets, m[i]),
        forall|j: int| 0 <= j < i ==> spec_can_remove(bets, #[trigger] m[j]),
    ensures
        first_nonremovable(bets, m) == m[i],
    decreases i,
{
    if i == 0 {
    } else {
        assert(m.drop_first()[i - 1] == m[i]);
        assert(forall|j: int|
            0 <= j < i - 1 ==> spec_can_remove(bets, #[trigger] m.drop_first()[j]));
        lemma_first_nonremovable_at(bets, m.drop_first(), i - 1);
    }
}

/// One player's money: the bankroll, the total wagered, and the active
/// bets, unique per (type, point). Every operation keeps `inv`.
pub struct PlayerCommon {
    pub bets: Vec<Bet>,
    pub bankroll: u32,
    pub wagered: u32,
}

impl PlayerCommon {
    /// The ledger as a mathematical value.
    pub open spec fn model(self) -> LedgerModel {
        LedgerModel { bets: self.bets@, bankroll: self.bankroll as int, wagered: self.wagered as int }
    }

    /// The ledger's invariant: well-formed bets, one bet per (type, point)
    /// slot, `wagered` the exact sum of the stakes, and all money the
    /// ledger is answerable for within the bankroll type's range.
    pub open spec fn inv(self) -> bool {
        &&& unique_keys(self.bets@)
        &&& forall|i: int| 0 <= i < self.bets@.len() ==> (#[trigger] self.bets@[i]).wf()
        &&& self.wagered == amount_sum(self.bets@)
        &&& money_total(self.model()) <= u32::MAX
    }

    pub fn new(bankroll: u32) -> (p: Self)
        ensures
            p.model() == (LedgerModel { bets: Seq::<Bet>::empty(), bankroll: bankroll as int, wagered: 0int }),
            p.inv(),
    {
        let p = PlayerCommon { bets: Vec::new(), bankroll, wagered: 0 };
        proof {
            assert(p.bets@ =~= Seq::<Bet>::empty());
        }
        p
    }

    pub fn bankroll(&self) -> (b: u32)
        ensures
            b == self.bankroll,
    {
        self.bankroll
    }

    /// Whether some active bet occupies the (type, point) slot.
    fn has_bet_with_key(&self, bt: BetType, point: Option<u8>) -> (found: bool)
        ensures
            found == has_key(self.bets@, bt, point),
    {
        let n = self.bets.len();
        let mut i: usize = 0;
        while i < n
            invariant
                n == self.bets@.len(),
                0 <= i <= n,
                key_count(self.bets@.subrange(0, i as int), bt, point) == 0,
            decreases n - i,
        {
            let b = self.bets[i];
            let same_point = match (b.point, point) {
                (Option::None, Option::None) => true,
                (Option::Some(x), Option::Some(y)) => x == y,
                _ => false,
            };
            proof {
                assert(self.bets@.subrange(0, i as int + 1) =~= self.bets@.subrange(
                    0,
                    i as int,
                ).push(self.bets@[i as int]));
                lemma_sums_push(self.bets@.subrange(0, i as int), self.bets@[i as int], bt, point);
            }
            if b.bet_type == bt && same_point {
                proof {
                    lemma_sums_nonneg(self.bets@.subrange(0, i as int + 1));
                    lemma_sum_key_prefix(self.bets@, i as int + 1, bt, point);
                }
                return true;
            }
            i += 1;
        }
        proof {
            assert(self.bets@.subrange(0, n as int) =~= self.bets@);
        }
        false
    }

    /// Whether `b` could be removed right now; see `spec_can_remove`.
    pub fn can_remove_bet(&self, b: Bet) -> (ok: bool)
        ensures
            ok == spec_can_remove(self.bets@, b),
    {
        match b.bet_type {
            BetType::Pass | BetType::Come => b.point.is_none(),
            BetType::DontPass => !self.has_bet_with_key(BetType::DontPassOdds, b.point),
            BetType::DontCome => !self.has_bet_with_key(BetType::DontComeOdds, b.point),
            _ => true,
        }
    }

    /// Stake the bet: debit the bankroll by the amount plus any up-front
    /// vigorish, credit `wagered`, and put the bet on the table. Fails on a
    /// duplicate (type, point) slot and on insufficient funds, in that
    /// order, leaving the ledger unchanged. Never creates or destroys money.
    pub fn add_bet(&mut self, b: Bet) -> (r: Result<(), PlayerError>)
        requires
            old(self).inv(),
            b.wf(),
        ensures
            final(self).inv(),
            (final(self).model(), r) == spec_add_bet(old(self).model(), b),
            money_total(final(self).model()) == money_total(old(self).model()),
    {
        if self.has_bet_with_key(b.bet_type, b.point) {
            return Err(PlayerError::DuplicateBet(b));
        }
        let vig: u32 = if (b.bet_type == BetType::Buy && crate::bet::BUY_PAY_UPFRONT) || (
        b.bet_type == BetType::Lay && crate::bet::LAY_PAY_UPFRONT) {
            b.vig_amount()
        } else {
            0
        };
        if (b.amount as u64) + (vig as u64) > (self.bankroll as u64) {
            return Err(PlayerError::NotEnoughBankroll());
        }
        proof {
            lemma_sums_nonneg(self.bets@);
        }
        self.bankroll = self.bankroll - (b.amount + vig);
        self.wagered = self.wagered + b.amount;
        self.bets.push(b);
        proof {
            let s0 = old(self).bets@;
            lemma_sums_push(s0, b, b.bet_type, b.point);
            assert forall|bt2: BetType, p2: Option<u8>| #[trigger] key_count(
                self.bets@,
                bt2,
                p2,
            ) <= 1 by {
                lemma_sums_push(s0, b, bt2, p2);
            }
        }
        Ok(())
    }
}

impl PlayerCommon {
    /// Take down every bet in the (type, point) slot, all or nothing:
    /// refused with `CantRemoveBet` when any occupant may not come down,
    /// otherwise each stake and any up-front vigorish move back to the
    /// bankroll and the removed bets are handed back, in order. Never
    /// creates or destroys money.
    pub fn remove_bets_with_type_point(&mut self, bt: BetType, point: Option<u8>) -> (r: Result<
        Vec<Bet>,
        PlayerError,
    >)
        requires
            old(self).inv(),
        ensures
            final(self).inv(),
            final(self).model() == spec_remove(old(self).model(), bt, point).0,
            r matches Ok(v) ==> spec_remove(old(self).model(), bt, point).1 == Ok::<
                Seq<Bet>,
                PlayerError,
            >(v@),
            r matches Err(e) ==> spec_remove(old(self).model(), bt, point).1 == Err::<
                Seq<Bet>,
                PlayerError,
            >(e),
            r is Ok <==> spec_remove(old(self).model(), bt, point).1 is Ok,
            money_total(final(self).model()) == money_total(old(self).model()),
    {
        let ghost s0 = self.bets@;
        let n = self.bets.len();
        // gather the occupants of the slot
        let mut matching: Vec<Bet> = Vec::new();
        let mut i: usize = 0;
        while i < n
            invariant
                old(self).inv(),
                s0 == self.bets@,
                self.bankroll == old(self).bankroll,
                self.wagered == old(self).wagered,
                n == s0.len(),
                0 <= i <= n,
                matching@ == bets_with_key(s0.subrange(0, i as int), bt, point),
            decreases n - i,
        {
            let b = self.bets[i];
            proof {
                assert(s0.subrange(0, i as int + 1) =~= s0.subrange(0, i as int).push(
                    s0[i as int],
                ));
                lemma_sums_push(s0.subrange(0, i as int), s0[i as int], bt, point);
            }
            if Self::key_eq(b, bt, point) {
                matching.push(b);
            }
            i += 1;
        }
        proof {
            assert(s0.subrange(0, n as int) =~= s0);
        }
        // all or nothing: every occupant must be removable
        let mut j: usize = 0;
        while j < matching.len()
            invariant
                old(self).inv(),
                s0 == self.bets@,
                self.bankroll == old(self).bankroll,
                self.wagered == old(self).wagered,
                matching@ == bets_with_key(s0, bt, point),
                0 <= j <= matching@.len(),
                forall|k: int| 0 <= k < j ==> spec_can_remove(s0, #[trigger] matching@[k]),
            decreases matching@.len() - j,
        {
            let mb = matching[j];
            if !self.can_remove_bet(mb) {
                proof {
                    lemma_first_nonremovable_at(s0, matching@, j as int);
                }
                return Err(PlayerError::CantRemoveBet(mb));
            }
            j += 1;
        }
        // move each stake (and any vigorish held) back to the bankroll
        let ghost m_all = matching@;
        let mut k: usize = 0;
        while k < matching.len()
            invariant
                old(self).inv(),
                old(self).bets@ == s0,
                self.bets@ == s0,
                matching@ == m_all,
                m_all == bets_with_key(s0, bt, point),
                0 <= k <= m_all.len(),
                self.bankroll == old(self).bankroll + amount_sum(m_all.subrange(0, k as int))
                    + vig_sum(m_all.subrange(0, k as int)),
                self.wagered == old(self).wagered - amount_sum(m_all.subrange(0, k as int)),
            decreases m_all.len() - k,
        {
            let mb = matching[k];
            let vig: u32 = if (mb.bet_type == BetType::Buy && crate::bet::BUY_PAY_UPFRONT) || (
            mb.bet_type == BetType::Lay && crate::bet::LAY_PAY_UPFRONT) {
                mb.vig_amount()
            } else {
                0
            };
            proof {
                lemma_key_split(s0, bt, point);
                lemma_sum_split_at(m_all, k as int);
                lemma_sum_split_at(m_all, k as int + 1);
                assert(m_all.subrange(0, k as int + 1) =~= m_all.subrange(0, k as int).push(
                    m_all[k as int],
                ));
                lemma_sums_push(m_all.subrange(0, k as int), m_all[k as int], bt, point);
                lemma_sums_nonneg(m_all.subrange(k as int + 1, m_all.len() as int));
                lemma_sums_nonneg(m_all.subrange(0, k as int));
                lemma_sums_nonneg(bets_without_key(s0, bt, point));
                assert(mb == m_all[k as int]);
                assert(vig == upfront_vig(m_all[k as int]));
                assert(amount_sum(m_all.subrange(0, k as int + 1)) == amount_sum(
                    m_all.subrange(0, k as int),
                ) + mb.amount);
                assert(vig_sum(m_all.subrange(0, k as int + 1)) == vig_sum(
                    m_all.subrange(0, k as int),
                ) + upfront_vig(mb));
                assert(amount_sum(m_all.subrange(0, k as int + 1)) + amount_sum(
                    m_all.subrange(k as int + 1, m_all.len() as int),
                ) == amount_sum(m_all));
                assert(amount_sum(m_all) + amount_sum(bets_without_key(s0, bt, point))
                    == amount_sum(s0));
                assert(vig_sum(m_all) + vig_sum(bets_without_key(s0, bt, point)) == vig_sum(s0));
                assert(old(self).wagered == amount_sum(s0));
                assert(old(self).bankroll + amount_sum(s0) + vig_sum(s0) <= u32::MAX);
            }
            self.bankroll = self.bankroll + mb.amount + vig;
            self.wagered = self.wagered - mb.amount;
            k += 1;
        }
        proof {
            assert(m_all.subrange(0, m_all.len() as int) =~= m_all);
        }
        // take the occupants off the table, keeping every other bet in order
        let mut kept: Vec<Bet> = Vec::new();
        let mut q: usize = 0;
        while q < n
            invariant
                old(self).inv(),
                old(self).bets@ == s0,
                self.bets@ == s0,
                n == s0.len(),
                0 <= q <= n,
                kept@ == bets_without_key(s0.subrange(0, q as int), bt, point),
            decreases n - q,
        {
            let b = self.bets[q];
            proof {
                assert(s0.subrange(0, q as int + 1) =~= s0.subrange(0, q as int).push(
                    s0[q as int],
                ));
                lemma_sums_push(s0.subrange(0, q as int), s0[q as int], bt, point);
            }
            if !Self::key_eq(b, bt, point) {
                kept.push(b);
            }
            q += 1;
        }
        proof {
            assert(s0.subrange(0, n as int) =~= s0);
        }
        self.bets = kept;
        proof {
            lemma_key_split(s0, bt, point);
            assert forall|i2: int| 0 <= i2 < self.bets@.len() implies (
            #[trigger] self.bets@[i2]).wf() by {
                lemma_without_key_wf(s0, bt, point, i2);
            }
        }
        Ok(matching)
    }

    /// Whether `b` sits in the (type, point) slot.
    fn key_eq(b: Bet, bt: BetType, point: Option<u8>) -> (eq: bool)
        ensures
            eq == key_matches(b, bt, point),
    {
        let same_point = match (b.point, point) {
            (Option::None, Option::None) => true,
            (Option::Some(x), Option::Some(y)) => x == y,
            _ => false,
        };
        b.bet_type == bt && same_point
    }
}

/// Every bet kept outside a slot comes from the sequence it was cut from.
proof fn lemma_without_key_wf(s: Seq<Bet>, bt: BetType, point: Option<u8>, i: int)
    requires
        forall|k: int| 0 <= k < s.len() ==> (#[trigger] s[k]).wf(),
        0 <= i < bets_without_key(s, bt, point).len(),
    ensures
        bets_without_key(s, bt, point)[i].wf(),
    decreases s.len(),
{
    if s.len() > 0 {
        let wo = bets_without_key(s.drop_last(), bt, point);
        if !key_matches(s.last(), bt, point) && i == bets_without_key(s, bt, point).len() - 1 {
            assert(bets_without_key(s, bt, point)[i] == s.last());
        } else {
            lemma_without_key_wf(s.drop_last(), bt, point, i);
        }
    }
}

/// A bet that neither wins nor loses stays on the table.
pub open spec fn survives(b: Bet, r: Roll) -> bool {
    !b.spec_wins_with(r) && !b.spec_loses_with(r)
}

/// A surviving flat bet without a point takes the roll's value as its point.
pub open spec fn adjust_bet(b: Bet, r: Roll) -> Bet {
    if b.bet_type.flat() && b.point is None {
        Bet {
            bet_type: b.bet_type,
            amount: b.amount,
            working: b.working,
            point: Some(r.spec_value() as u8),
        }
    } else {
        b
    }
}

/// The bets still on the table after a roll: winners and losers leave,
/// survivors stay in order, pointless flat survivors take the roll as point.
pub open spec fn after_roll(s: Seq<Bet>, r: Roll) -> Seq<Bet>
    decreases s.len(),
{
    if s.len() == 0 {
        Seq::empty()
    } else {
        after_roll(s.drop_last(), r) + if survives(s.last(), r) {
            seq![adjust_bet(s.last(), r)]
        } else {
            Seq::empty()
        }
    }
}

/// Sum of the payouts owed to the winners of a roll.
pub open spec fn winners_payout_sum(s: Seq<Bet>, r: Roll) -> int
    decreases s.len(),
{
    if s.len() == 0 {
        0
    } else {
        winners_payout_sum(s.drop_last(), r) + if s.last().spec_wins_with(r) {
            s.last().spec_payout(r)
        } else {
            0int
        }
    }
}

/// Sum of the stakes of the winners of a roll.
pub open spec fn winners_amount_sum(s: Seq<Bet>, r: Roll) -> int
    decreases s.len(),
{
    if s.len() == 0 {
        0
    } else {
        winners_amount_sum(s.drop_last(), r) + if s.last().spec_wins_with(r) {
            s.last().amount as int
        } else {
            0int
        }
    }
}

/// Sum of the stakes forfeited by the losers of a roll.
pub open spec fn losers_amount_sum(s: Seq<Bet>, r: Roll) -> int
    decreases s.len(),
{
    if s.len() == 0 {
        0
    } else {
        losers_amount_sum(s.drop_last(), r) + if s.last().spec_loses_with(r) {
            s.last().amount as int
        } else {
            0int
        }
    }
}

/// Up-front vigorish held against the bets a roll resolves, won or lost;
/// the house keeps it either way.
pub open spec fn resolved_vig_sum(s: Seq<Bet>, r: Roll) -> int
    decreases s.len(),
{
    if s.len() == 0 {
        0
    } else {
        resolved_vig_sum(s.drop_last(), r) + if s.last().spec_wins_with(r) || s.last(
        ).spec_loses_with(r) {
            upfront_vig(s.last())
        } else {
            0int
        }
    }
}

/// What the bankroll gains from a roll: each winner's payout plus its
/// returned stake.
pub open spec fn win_credit(s: Seq<Bet>, r: Roll) -> int {
    winners_payout_sum(s, r) + winners_amount_sum(s, r)
}

/// The stakes that leave `wagered` on a roll: every winner's (returned)
/// and every loser's (forfeited).
pub open spec fn resolved_amount_sum(s: Seq<Bet>, r: Roll) -> int {
    winners_amount_sum(s, r) + losers_amount_sum(s, r)
}

/// What a roll does to a ledger: winners are paid and returned, losers
/// forfeit, both leave the table, and pointless flat survivors take the
/// roll as their point.
pub open spec fn spec_resolve(m: LedgerModel, r: Roll) -> LedgerModel {
    LedgerModel {
        bets: after_roll(m.bets, r),
        bankroll: m.bankroll + win_credit(m.bets, r),
        wagered: m.wagered - resolved_amount_sum(m.bets, r),
    }
}

/// Every point a roll would put on a surviving flat bet is a legal point
/// value. (A don't-pass or don't-come bet without a point survives a roll
/// of twelve, whose value is no legal point; resolving then has no lawful
/// outcome and is refused up front.)
pub open spec fn points_settable(s: Seq<Bet>, r: Roll) -> bool {
    forall|i: int|
        0 <= i < s.len() ==> ((#[trigger] s[i]).bet_type.flat() && s[i].point is None && survives(
            s[i],
            r,
        ) ==> crate::bet::valid_point(r.spec_value() as u8))
}

/// When a ledger can resolve a roll: every payout fits the bankroll's
/// range and every point the roll sets is legal.
pub open spec fn resolve_ok(m: LedgerModel, r: Roll) -> bool {
    &&& money_total(m) + winners_payout_sum(m.bets, r) <= u32::MAX
    &&& points_settable(m.bets, r)
}

proof fn lemma_roll_sums_push(s: Seq<Bet>, b: Bet, r: Roll)
    ensures
        winners_payout_sum(s.push(b), r) == winners_payout_sum(s, r) + if b.spec_wins_with(r) {
            b.spec_payout(r)
        } else {
            0int
        },
        winners_amount_sum(s.push(b), r) == winners_amount_sum(s, r) + if b.spec_wins_with(r) {
            b.amount as int
        } else {
            0int
        },
        losers_amount_sum(s.push(b), r) == losers_amount_sum(s, r) + if b.spec_loses_with(r) {
            b.amount as int
        } else {
            0int
        },
        resolved_vig_sum(s.push(b), r) == resolved_vig_sum(s, r) + if b.spec_wins_with(r)
            || b.spec_loses_with(r) {
            upfront_vig(b)
        } else {
            0int
        },
        after_roll(s.push(b), r) == after_roll(s, r) + if survives(b, r) {
            seq![adjust_bet(b, r)]
        } else {
            Seq::<Bet>::empty()
        },
{
    assert(s.push(b).drop_last() =~= s);
    assert(s.push(b).last() == b);
}

proof fn lemma_roll_cons_sums(b: Bet, s: Seq<Bet>, r: Roll)
    ensures
        winners_payout_sum(seq![b] + s, r) == winners_payout_sum(seq![b], r)
            + winners_payout_sum(s, r),
        winners_amount_sum(seq![b] + s, r) == winners_amount_sum(seq![b], r)
            + winners_amount_sum(s, r),
        losers_amount_sum(seq![b] + s, r) == losers_amount_sum(seq![b], r) + losers_amount_sum(
            s,
            r,
        ),
        resolved_vig_sum(seq![b] + s, r) == resolved_vig_sum(seq![b], r) + resolved_vig_sum(s, r),
    decreases s.len(),
{
    let c = seq![b] + s;
    assert(winners_payout_sum(Seq::<Bet>::empty(), r) == 0);
    assert(winners_amount_sum(Seq::<Bet>::empty(), r) == 0);
    assert(losers_amount_sum(Seq::<Bet>::empty(), r) == 0);
    assert(resolved_vig_sum(Seq::<Bet>::empty(), r) == 0);
    if s.len() == 0 {
        assert(c =~= seq![b]);
    } else {
        assert(c.drop_last() =~= seq![b] + s.drop_last());
        lemma_roll_cons_sums(b, s.drop_last(), r);
        assert(c.last() == s.last());
    }
}

/// A sum over a prefix together with the sum over the rest gives the whole.
proof fn lemma_roll_sum_split_at(s: Seq<Bet>, r: Roll, k: int)
    requires
        0 <= k <= s.len(),
    ensures
        winners_payout_sum(s, r) == winners_payout_sum(s.subrange(0, k), r) + winners_payout_sum(
            s.subrange(k, s.len() as int),
            r,
        ),
        winners_amount_sum(s, r) == winners_amount_sum(s.subrange(0, k), r) + winners_amount_sum(
            s.subrange(k, s.len() as int),
            r,
        ),
        losers_amount_sum(s, r) == losers_amount_sum(s.subrange(0, k), r) + losers_amount_sum(
            s.subrange(k, s.len() as int),
            r,
        ),
        resolved_vig_sum(s, r) == resolved_vig_sum(s.subrange(0, k), r) + resolved_vig_sum(
            s.subrange(k, s.len() as int),
            r,
        ),
    decreases s.len() - k,
{
    if k == s.len() {
        assert(s.subrange(0, k) =~= s);
        assert(s.subrange(k, s.len() as int) =~= Seq::empty());
    } else {
        lemma_roll_sum_split_at(s, r, k + 1);
        assert(s.subrange(0, k + 1) =~= s.subrange(0, k).push(s[k]));
        lemma_roll_sums_push(s.subrange(0, k), s[k], r);
        let rest = s.subrange(k, s.len() as int);
        let rest1 = s.subrange(k + 1, s.len() as int);
        assert(rest =~= seq![s[k]] + rest1);
        lemma_roll_cons_sums(s[k], rest1, r);
        assert(seq![s[k]].drop_last() =~= Seq::<Bet>::empty());
        assert(winners_payout_sum(Seq::<Bet>::empty(), r) == 0);
        assert(winners_amount_sum(Seq::<Bet>::empty(), r) == 0);
        assert(losers_amount_sum(Seq::<Bet>::empty(), r) == 0);
        assert(resolved_vig_sum(Seq::<Bet>::empty(), r) == 0);
        assert(seq![s[k]].last() == s[k]);
    }
}

/// Every resolution sum is bounded below by zero.
proof fn lemma_roll_sums_nonneg(s: Seq<Bet>, r: Roll)
    requires
        forall|i: int| 0 <= i < s.len() ==> (#[trigger] s[i]).wf(),
    ensures
        winners_payout_sum(s, r) >= 0,
        winners_amount_sum(s, r) >= 0,
        losers_amount_sum(s, r) >= 0,
        resolved_vig_sum(s, r) >= 0,
        winners_amount_sum(s, r) + losers_amount_sum(s, r) <= amount_sum(s),
    decreases s.len(),
{
    if s.len() > 0 {
        lemma_roll_sums_nonneg(s.drop_last(), r);
        crate::bet::lemma_win_pays(s.last(), r);
        crate::bet::lemma_wins_loses_exclusive(s.last(), r);
    }
}

/// A roll takes exactly the resolved stakes out of the wagered sum, and
/// exactly the resolved bets' vigorish out of the held vigorish.
proof fn lemma_after_roll_sums(s: Seq<Bet>, r: Roll)
    requires
        forall|i: int| 0 <= i < s.len() ==> (#[trigger] s[i]).wf(),
    ensures
        amount_sum(after_roll(s, r)) == amount_sum(s) - resolved_amount_sum(s, r),
        vig_sum(after_roll(s, r)) == vig_sum(s) - resolved_vig_sum(s, r),
    decreases s.len(),
{
    if s.len() > 0 {
        let dl = s.drop_last();
        let b = s.last();
        lemma_after_roll_sums(dl, r);
        crate::bet::lemma_wins_loses_exclusive(b, r);
        if survives(b, r) {
            assert(after_roll(s, r) =~= after_roll(dl, r).push(adjust_bet(b, r)));
            lemma_sums_push(after_roll(dl, r), adjust_bet(b, r), BetType::Pass, None);
            assert(adjust_bet(b, r).amount == b.amount);
            assert(upfront_vig(adjust_bet(b, r)) == upfront_vig(b));
        } else {
            assert(after_roll(s, r) =~= after_roll(dl, r));
        }
    }
}

/// After a roll no (type, point) slot is occupied twice. A slot a flat
/// pointless survivor moves into cannot still hold a bet: a flat bet
/// already on the roll's value as its point wins or loses on that roll.
proof fn lemma_after_roll_key_count(s: Seq<Bet>, r: Roll, bt: BetType, point: Option<u8>)
    requires
        r.wf(),
        forall|i: int| 0 <= i < s.len() ==> (#[trigger] s[i]).wf(),
    ensures
        key_count(after_roll(s, r), bt, point) <= key_count(s, bt, point) + if bt.flat() && point
            == Some(r.spec_value() as u8) {
            key_count(s, bt, None)
        } else {
            0int
        },
        bt.flat() && point == Some(r.spec_value() as u8) ==> key_count(after_roll(s, r), bt, point)
            <= key_count(s, bt, None),
    decreases s.len(),
{
    lemma_sums_nonneg(s);
    if s.len() > 0 {
        let dl = s.drop_last();
        let b = s.last();
        lemma_after_roll_key_count(dl, r, bt, point);
        lemma_sums_nonneg(dl);
        if survives(b, r) {
            assert(after_roll(s, r) =~= after_roll(dl, r).push(adjust_bet(b, r)));
            lemma_sums_push(after_roll(dl, r), adjust_bet(b, r), bt, point);
            if b.bet_type.flat() && (b.point matches Some(bp) && bp == r.spec_value() as u8) {
                // a flat bet on the rolled point cannot survive that roll
                assert(b.working);
                assert(false);
            }
        } else {
            assert(after_roll(s, r) =~= after_roll(dl, r));
        }
    }
}

impl PlayerCommon {
    /// Settle a roll: pay and return every winner, forfeit every loser's
    /// stake, take both off the table, and give each surviving flat bet
    /// without a point the roll's value as its point. The up-front
    /// vigorish of a resolved buy or lay bet stays with the house.
    #[verifier::loop_isolation(false)]
    pub fn react_to_roll(&mut self, table_state: &TableState)
        requires
            old(self).inv(),
            table_state.last_roll is Some,
            table_state.last_roll->0.wf(),
            resolve_ok(old(self).model(), table_state.last_roll->0),
        ensures
            final(self).inv(),
            final(self).model() == spec_resolve(old(self).model(), table_state.last_roll->0),
            money_total(final(self).model()) == money_total(old(self).model())
                + winners_payout_sum(old(self).bets@, table_state.last_roll->0)
                - resolved_vig_sum(old(self).bets@, table_state.last_roll->0)
                - losers_amount_sum(old(self).bets@, table_state.last_roll->0),
    {
        let r = table_state.last_roll.unwrap();
        let v = r.value();
        let ghost s0 = self.bets@;
        let n = self.bets.len();
        let mut new_bets: Vec<Bet> = Vec::new();
        let mut i: usize = 0;
        while i < n
            invariant
                self.bets@ == s0,
                0 <= i <= n,
                self.bankroll == old(self).bankroll + winners_payout_sum(
                    s0.subrange(0, i as int),
                    r,
                ) + winners_amount_sum(s0.subrange(0, i as int), r),
                self.wagered == old(self).wagered - winners_amount_sum(s0.subrange(0, i as int), r)
                    - losers_amount_sum(s0.subrange(0, i as int), r),
                new_bets@ == after_roll(s0.subrange(0, i as int), r),
                forall|k: int| 0 <= k < new_bets@.len() ==> (#[trigger] new_bets@[k]).wf(),
            decreases n - i,
        {
            let b = self.bets[i];
            proof {
                assert(s0.subrange(0, i as int + 1) =~= s0.subrange(0, i as int).push(
                    s0[i as int],
                ));
                lemma_roll_sums_push(s0.subrange(0, i as int), s0[i as int], r);
                lemma_roll_sum_split_at(s0, r, i as int);
                lemma_roll_sum_split_at(s0, r, i as int + 1);
                lemma_roll_sums_nonneg(s0.subrange(0, i as int), r);
                lemma_roll_sums_nonneg(s0.subrange(i as int + 1, s0.len() as int), r);
                lemma_roll_sums_nonneg(s0, r);
                lemma_sums_nonneg(s0);
                crate::bet::lemma_win_pays(s0[i as int], r);
                crate::bet::lemma_wins_loses_exclusive(s0[i as int], r);
            }
            if b.wins_with(r) {
                let w = b.win_amount(r).unwrap();
                self.bankroll = self.bankroll + w + b.amount;
                self.wagered = self.wagered - b.amount;
            } else if b.loses_with(r) {
                self.wagered = self.wagered - b.amount;
            } else {
                let is_flat = match b.bet_type {
                    BetType::Pass | BetType::Come | BetType::DontPass | BetType::DontCome => true,
                    _ => false,
                };
                if is_flat && b.point.is_none() {
                    let nb = Bet::set_point(b, v).unwrap();
                    new_bets.push(nb);
                } else {
                    new_bets.push(b);
                }
            }
            i += 1;
        }
        proof {
            assert(s0.subrange(0, n as int) =~= s0);
        }
        self.bets = new_bets;
        proof {
            lemma_after_roll_sums(s0, r);
            lemma_roll_sums_nonneg(s0, r);
            assert forall|bt: BetType, point: Option<u8>| #[trigger] key_count(
                self.bets@,
                bt,
                point,
            ) <= 1 by {
                lemma_after_roll_key_count(s0, r, bt, point);
            }
        }
    }

    /// Whether `react_to_roll` may settle this roll: the payouts it owes
    /// fit the bankroll's range, and every point it would set is legal.
    /// Callers outside the crate test this before resolving.
    #[verifier::loop_isolation(false)]
    pub fn can_resolve(&self, r: Roll) -> (ok: bool)
        requires
            self.inv(),
            r.wf(),
        ensures
            ok == resolve_ok(self.model(), r),
    {
        let n = self.bets.len();
        let ghost s0 = self.bets@;
        // the vigorish currently held never exceeds the money total
        let mut vig_acc: u64 = 0;
        let mut i: usize = 0;
        while i < n
            invariant
                0 <= i <= n,
                vig_acc == vig_sum(s0.subrange(0, i as int)),
                vig_acc <= u32::MAX,
            decreases n - i,
        {
            let b = self.bets[i];
            proof {
                assert(s0.subrange(0, i as int + 1) =~= s0.subrange(0, i as int).push(
                    s0[i as int],
                ));
                lemma_sums_push(s0.subrange(0, i as int), s0[i as int], b.bet_type, b.point);
                lemma_sum_split_at(s0, i as int + 1);
                lemma_sums_nonneg(s0.subrange(i as int + 1, s0.len() as int));
                lemma_sums_nonneg(s0.subrange(0, i as int));
            }
            if (b.bet_type == BetType::Buy && crate::bet::BUY_PAY_UPFRONT) || (b.bet_type
                == BetType::Lay && crate::bet::LAY_PAY_UPFRONT) {
                vig_acc = vig_acc + (b.vig_amount() as u64);
            }
            i += 1;
        }
        proof {
            assert(s0.subrange(0, n as int) =~= s0);
        }
        // sum the payouts the roll would owe
        let mut pay_acc: u64 = 0;
        let mut j: usize = 0;
        while j < n
            invariant
                0 <= j <= n,
                pay_acc == winners_payout_sum(s0.subrange(0, j as int), r),
                pay_acc <= u64::MAX - 0xf_ffff_ffff,
            decreases n - j,
        {
            let b = self.bets[j];
            proof {
                assert(s0.subrange(0, j as int + 1) =~= s0.subrange(0, j as int).push(
                    s0[j as int],
                ));
                lemma_roll_sums_push(s0.subrange(0, j as int), s0[j as int], r);
                crate::bet::lemma_win_pays(s0[j as int], r);
            }
            if b.wins_with(r) {
                let w = Self::payout_u64(b, r);
                if pay_acc > u64::MAX - 0xf_ffff_ffff - w {
                    // far past any sum the bankroll could hold
                    proof {
                        lemma_roll_sum_split_at(s0, r, j as int + 1);
                        lemma_roll_sums_nonneg(s0.subrange(j as int + 1, s0.len() as int), r);
                        lemma_sums_nonneg(s0);
                    }
                    return false;
                }
                pay_acc = pay_acc + w;
            }
            j += 1;
        }
        proof {
            assert(s0.subrange(0, n as int) =~= s0);
        }
        let fits = (self.bankroll as u64) + (self.wagered as u64) + vig_acc + pay_acc <= (
        u32::MAX as u64);
        // every point the roll would set must be a legal point value
        let v = r.value();
        let mut settable = true;
        if !crate::bet::is_valid_point(v) {
            let mut q: usize = 0;
            while q < n
                invariant
                    0 <= q <= n,
                    settable == points_settable(s0.subrange(0, q as int), r),
                decreases n - q,
            {
                let b = self.bets[q];
                let is_flat = match b.bet_type {
                    BetType::Pass | BetType::Come | BetType::DontPass | BetType::DontCome => true,
                    _ => false,
                };
                proof {
                    assert(s0.subrange(0, q as int + 1) =~= s0.subrange(0, q as int).push(
                        s0[q as int],
                    ));
                    assert(forall|k: int|
                        0 <= k < q ==> s0.subrange(0, q as int + 1)[k] == s0.subrange(
                            0,
                            q as int,
                        )[k]);
                }
                if is_flat && b.point.is_none() && !b.wins_with(r) && !b.loses_with(r) {
                    settable = false;
                }
                q += 1;
            }
            proof {
                assert(s0.subrange(0, n as int) =~= s0);
            }
        }
        fits && settable
    }

    /// The payout a winning bet would get, computed without any range cap.
    fn payout_u64(b: Bet, r: Roll) -> (w: u64)
        requires
            r.wf(),
            b.wf(),
        ensures
            w == b.spec_payout(r),
            w <= 0xf_ffff_ffff,
    {
        let a = b.amount as u64;
        let v = r.value();
        match b.bet_type {
            BetType::Pass | BetType::Come | BetType::DontPass | BetType::DontCome => a,
            BetType::Field => {
                if v == 2 {
                    a * (if crate::bet::FIELD_TRIP_2 {
                        3
                    } else {
                        2
                    })
                } else if v == 11 {
                    a * (if crate::bet::FIELD_DOUB_11 {
                        2
                    } else {
                        1
                    })
                } else if v == 12 {
                    a * (if crate::bet::FIELD_TRIP_12 {
                        3
                    } else {
                        2
                    })
                } else {
                    a
                }
            },
            BetType::PassOdds | BetType::ComeOdds | BetType::Buy => {
                let p = b.point.unwrap();
                let base = if p == 4 || p == 10 {
                    a * 2
                } else if p == 5 || p == 9 {
                    a * 3 / 2
                } else {
                    a * 6 / 5
                };
                if b.bet_type == BetType::Buy && !crate::bet::BUY_PAY_UPFRONT {
                    base - a * 5 / 100
                } else {
                    base
                }
            },
            BetType::DontPassOdds | BetType::DontComeOdds => {
                let p = b.point.unwrap();
                if p == 4 || p == 10 {
                    a / 2
                } else if p == 5 || p == 9 {
                    a * 2 / 3
                } else {
                    a * 5 / 6
                }
            },
            BetType::Place => {
                let p = b.point.unwrap();
                if p == 4 || p == 10 {
                    a * 9 / 5
                } else if p == 5 || p == 9 {
                    a * 7 / 5
                } else {
                    a * 7 / 6
                }
            },
            BetType::Lay => {
                let p = b.point.unwrap();
                let win = if p == 4 || p == 10 {
                    a / 2
                } else if p == 5 || p == 9 {
                    a * 2 / 3
                } else {
                    a * 5 / 6
                };
                if !crate::bet::LAY_PAY_UPFRONT {
                    win - win * 5 / 100
                } else {
                    win
                }
            },
        }
    }
}

/// Bankroll conservation at placement: adding a bet only moves money
/// between the bankroll, the wagered stakes and the held vigorish; none is
/// created or destroyed, whether the bet is accepted or refused.
pub proof fn lemma_add_bet_conserves_money(m: LedgerModel, b: Bet)
    ensures
        money_total(spec_add_bet(m, b).0) == money_total(m),
{
    lemma_sums_push(m.bets, b, b.bet_type, b.point);
}

/// Bankroll conservation at removal: taking bets down returns their stakes
/// and held vigorish to the bankroll; no money is created or destroyed,
/// whether the removal succeeds or is refused.
pub proof fn lemma_remove_conserves_money(m: LedgerModel, bt: BetType, point: Option<u8>)
    ensures
        money_total(spec_remove(m, bt, point).0) == money_total(m),
{
    lemma_key_split(m.bets, bt, point);
}

/// Bankroll accounting at resolution: after a roll the ledger holds exactly
/// what it held before, plus the payouts the winners earned, minus the
/// stakes the losers forfeited, minus the vigorish the house keeps on every
/// resolved buy or lay bet. Money moves; it never appears or vanishes.
pub proof fn lemma_resolve_accounts_money(m: LedgerModel, r: Roll)
    requires
        forall|i: int| 0 <= i < m.bets.len() ==> (#[trigger] m.bets[i]).wf(),
    ensures
        money_total(spec_resolve(m, r)) == money_total(m) + winners_payout_sum(m.bets, r)
            - losers_amount_sum(m.bets, r) - resolved_vig_sum(m.bets, r),
{
    lemma_after_roll_sums(m.bets, r);
}

/// Every standalone bet can always be taken down: removal of a slot whose
/// type is not one of the four flat line bets never fails.
pub proof fn lemma_remove_always_ok(m: LedgerModel, bt: BetType, point: Option<u8>)
    requires
        !bt.flat(),
    ensures
        spec_remove(m, bt, point).1 is Ok,
{
    lemma_key_split(m.bets, bt, point);
}

/// A ledger operation, as a mathematical value: everything a round can
/// do to one player's money.
pub enum LedgerOp {
    Add(Bet),
    Remove(BetType, Option<u8>),
    Resolve(Roll),
}

/// Every bet in the sequence is well formed.
pub open spec fn bets_wf(s: Seq<Bet>) -> bool {
    forall|i: int| 0 <= i < s.len() ==> (#[trigger] s[i]).wf()
}

/// The ledger after one operation.
pub open spec fn apply_op(m: LedgerModel, op: LedgerOp) -> LedgerModel {
    match op {
        LedgerOp::Add(b) => spec_add_bet(m, b).0,
        LedgerOp::Remove(bt, point) => spec_remove(m, bt, point).0,
        LedgerOp::Resolve(r) => spec_resolve(m, r),
    }
}

/// The ledger after a sequence of operations, applied left to right.
pub open spec fn apply_ops(m: LedgerModel, ops: Seq<LedgerOp>) -> LedgerModel
    decreases ops.len(),
{
    if ops.len() == 0 {
        m
    } else {
        apply_op(apply_ops(m, ops.drop_last()), ops.last())
    }
}

/// A lawful use of the ledger: every bet added is well formed, and every
/// roll resolved can lawfully set its points.
pub open spec fn ops_legal(m: LedgerModel, ops: Seq<LedgerOp>) -> bool
    decreases ops.len(),
{
    if ops.len() == 0 {
        true
    } else {
        &&& ops_legal(m, ops.drop_last())
        &&& (ops.last() matches LedgerOp::Add(b) ==> b.wf())
        &&& (ops.last() matches LedgerOp::Resolve(r) ==> points_settable(
            apply_ops(m, ops.drop_last()).bets,
            r,
        ))
    }
}

/// The money that crossed the table's edge over a sequence of operations:
/// winnings paid in, minus stakes forfeited, minus vigorish the house kept.
pub open spec fn net_flow(m: LedgerModel, ops: Seq<LedgerOp>) -> int
    decreases ops.len(),
{
    if ops.len() == 0 {
        0
    } else {
        net_flow(m, ops.drop_last()) + match ops.last() {
            LedgerOp::Resolve(r) => {
                let bets = apply_ops(m, ops.drop_last()).bets;
                winners_payout_sum(bets, r) - losers_amount_sum(bets, r) - resolved_vig_sum(
                    bets,
                    r,
                )
            },
            _ => 0,
        }
    }
}

/// A roll keeps every surviving bet well formed, as long as the points it
/// sets are legal point values.
proof fn lemma_after_roll_wf(s: Seq<Bet>, r: Roll)
    requires
        bets_wf(s),
        points_settable(s, r),
    ensures
        bets_wf(after_roll(s, r)),
    decreases s.len(),
{
    if s.len() > 0 {
        let dl = s.drop_last();
        assert(forall|i: int| 0 <= i < dl.len() ==> dl[i] == s[i]);
        lemma_after_roll_wf(dl, r);
        assert(s[s.len() - 1] == s.last());
    }
}

/// Removal keeps every remaining bet well formed.
proof fn lemma_without_key_all_wf(s: Seq<Bet>, bt: BetType, point: Option<u8>)
    requires
        bets_wf(s),
    ensures
        bets_wf(bets_without_key(s, bt, point)),
{
    assert forall|i: int|
        0 <= i < bets_without_key(s, bt, point).len() implies (#[trigger] bets_without_key(
        s,
        bt,
        point,
    )[i]).wf() by {
        lemma_without_key_wf(s, bt, point, i);
    }
}

/// Bankroll conservation over whole games: across any lawful sequence of
/// placements, removals and resolutions, the money the ledger is
/// answerable for equals what it began with plus everything the house
/// paid in, minus everything forfeited to it. Money only ever moves.
pub proof fn lemma_ledger_conservation(m: LedgerModel, ops: Seq<LedgerOp>)
    requires
        bets_wf(m.bets),
        ops_legal(m, ops),
    ensures
        money_total(apply_ops(m, ops)) == money_total(m) + net_flow(m, ops),
        bets_wf(apply_ops(m, ops).bets),
    decreases ops.len(),
{
    if ops.len() > 0 {
        lemma_ledger_conservation(m, ops.drop_last());
        let mk = apply_ops(m, ops.drop_last());
        match ops.last() {
            LedgerOp::Add(b) => {
                lemma_add_bet_conserves_money(mk, b);
                if !has_key(mk.bets, b.bet_type, b.point) && b.amount + upfront_vig(b)
                    <= mk.bankroll {
                    assert forall|i: int|
                        0 <= i < mk.bets.push(b).len() implies (#[trigger] mk.bets.push(
                        b,
                    )[i]).wf() by {
                        if i < mk.bets.len() {
                            assert(mk.bets.push(b)[i] == mk.bets[i]);
                        }
                    }
                }
            },
            LedgerOp::Remove(bt, point) => {
                lemma_remove_conserves_money(mk, bt, point);
                lemma_without_key_all_wf(mk.bets, bt, point);
            },
            LedgerOp::Resolve(r) => {
                lemma_resolve_accounts_money(mk, r);
                lemma_after_roll_wf(mk.bets, r);
            },
        }
    }
}

/// A player that never bets; its ledger just sits there.
pub struct PlayerStub {
    pub common: PlayerCommon,
}

impl PlayerStub {
    pub fn new(bankroll: u32) -> (p: Self)
        ensures
            p.common.model() == (LedgerModel {
                bets: Seq::<Bet>::empty(),
                bankroll: bankroll as int,
                wagered: 0int,
            }),
            p.common.inv(),
    {
        PlayerStub { common: PlayerCommon::new(bankroll) }
    }

    pub fn make_bets(&mut self, _state: &TableState) -> (r: Result<(), PlayerError>)
        ensures
            *final(self) == *old(self),
            r is Ok,
    {
        Ok(())
    }
}

impl Default for PlayerStub {
    /// A stub with more bankroll than any game can spend.
    fn default() -> (p: Self)
        ensures
            p.common.model() == (LedgerModel {
                bets: Seq::<Bet>::empty(),
                bankroll: u32::MAX as int,
                wagered: 0int,
            }),
            p.common.inv(),
    {
        PlayerStub { common: PlayerCommon::new(u32::MAX) }
    }
}

/// A player that keeps one five-unit field bet on the table.
pub struct FieldPlayer {
    pub common: PlayerCommon,
}

impl FieldPlayer {
    pub fn new(bankroll: u32) -> (p: Self)
        ensures
            p.common.model() == (LedgerModel {
                bets: Seq::<Bet>::empty(),
                bankroll: bankroll as int,
                wagered: 0int,
            }),
            p.common.inv(),
    {
        FieldPlayer { common: PlayerCommon::new(bankroll) }
    }

    /// Unless exactly one bet is up, stake a five-unit field bet.
    pub fn make_bets(&mut self, _state: &TableState) -> (r: Result<(), PlayerError>)
        requires
            old(self).common.inv(),
        ensures
            final(self).common.inv(),
            old(self).common.bets@.len() == 1 ==> final(self).common.model() == old(
                self,
            ).common.model() && r is Ok,
            old(self).common.bets@.len() != 1 ==> (final(self).common.model(), r) == spec_add_bet(
                old(self).common.model(),
                (Bet { bet_type: BetType::Field, amount: 5, working: true, point: None }),
            ),
            money_total(final(self).common.model()) == money_total(old(self).common.model()),
    {
        if self.common.bets.len() != 1 {
            self.common.add_bet(Bet::new_field(5))
        } else {
            Ok(())
        }
    }
}

/// The odds a pass-line player lays behind the point: five times the flat
/// stake on 4, 6, 8 and 10, six times on 5 and 9.
pub open spec fn pass_odds_amount(b: Bet) -> int {
    if b.point == Some(5u8) || b.point == Some(9u8) {
        b.amount * 6
    } else {
        b.amount * 5
    }
}

/// A player that makes a five-unit pass bet and backs it with odds once
/// the point is on.
pub struct PassPlayer {
    pub common: PlayerCommon,
}

impl PassPlayer {
    pub fn new(bankroll: u32) -> (p: Self)
        ensures
            p.common.model() == (LedgerModel {
                bets: Seq::<Bet>::empty(),
                bankroll: bankroll as int,
                wagered: 0int,
            }),
            p.common.inv(),
    {
        PassPlayer { common: PlayerCommon::new(bankroll) }
    }

    /// With an empty table, stake the pass line; with the single pass bet
    /// on a point, back it with the full odds the house allows.
    pub fn make_bets(&mut self, _state: &TableState) -> (r: Result<(), PlayerError>)
        requires
            old(self).common.inv(),
            old(self).common.bets@.len() == 1 ==> {
                &&& old(self).common.bets@[0].point matches Some(p) && crate::bet::valid_point(p)
                &&& old(self).common.bets@[0].amount * 6 <= u32::MAX
            },
        ensures
            final(self).common.inv(),
            old(self).common.bets@.len() == 0 ==> (final(self).common.model(), r) == spec_add_bet(
                old(self).common.model(),
                (Bet { bet_type: BetType::Pass, amount: 5, working: true, point: None }),
            ),
            old(self).common.bets@.len() == 1 ==> (final(self).common.model(), r) == spec_add_bet(
                old(self).common.model(),
                (Bet {
                    bet_type: BetType::PassOdds,
                    amount: pass_odds_amount(old(self).common.bets@[0]) as u32,
                    working: true,
                    point: old(self).common.bets@[0].point,
                }),
            ),
            old(self).common.bets@.len() >= 2 ==> final(self).common.model() == old(
                self,
            ).common.model() && r is Ok,
            money_total(final(self).common.model()) == money_total(old(self).common.model()),
    {
        let n = self.common.bets.len();
        if n == 0 {
            self.common.add_bet(Bet::new_pass(5))
        } else if n == 1 {
            let other = self.common.bets[0];
            let p = other.point().unwrap();
            let amt: u32 = match p {
                4 | 6 | 8 | 10 => other.amount() * 5,
                5 | 9 => other.amount() * 6,
                _ => {
                    proof {
                        assert(false);
                    }
                    0
                },
            };
            self.common.add_bet(Bet::new_passodds(amt, p))
        } else {
            Ok(())
        }
    }
}

/// The field martingale's losing streak after a roll: a field win resets
/// it, a field loss lengthens it, no roll yet leaves it alone.
pub open spec fn next_num_lost(cur: u32, last: Option<Roll>) -> int {
    match last {
        None => cur as int,
        Some(r) => {
            let v = r.spec_value();
            if v == 5 || v == 6 || v == 7 || v == 8 {
                cur + 1
            } else {
                0
            }
        },
    }
}

/// The stake the field martingale puts up: the unit doubled once per lost
/// roll, capped by the table maximum and by the bankroll.
pub open spec fn martingale_field_amount(unit: u32, lost: int, max_bet: u32, bankroll: u32) -> int {
    let raw = unit * vstd::arithmetic::power2::pow2(lost as nat);
    let cap: int = if max_bet < bankroll {
        max_bet as int
    } else {
        bankroll as int
    };
    if raw < cap {
        raw
    } else {
        cap
    }
}

/// A player that doubles a field bet after every loss, up to a table
/// maximum and its own bankroll.
pub struct FieldMartingalePlayer {
    pub common: PlayerCommon,
    pub num_lost: u32,
    pub unit: u32,
    pub max_bet: u32,
}

impl FieldMartingalePlayer {
    pub fn new(bankroll: u32, max_bet: u32) -> (p: Self)
        ensures
            p.common.model() == (LedgerModel {
                bets: Seq::<Bet>::empty(),
                bankroll: bankroll as int,
                wagered: 0int,
            }),
            p.common.inv(),
            p.num_lost == 0,
            p.unit == 5,
            p.max_bet == max_bet,
    {
        FieldMartingalePlayer { common: PlayerCommon::new(bankroll), num_lost: 0, unit: 5, max_bet }
    }

    /// Track the streak from the last roll and stake the doubled-up field
    /// bet; with the bankroll empty, sit the round out.
    pub fn make_bets(&mut self, state: &TableState) -> (r: Result<(), PlayerError>)
        requires
            old(self).common.inv(),
            state.last_roll matches Some(lr) ==> lr.wf(),
            ({
                &&& old(self).common.bankroll != 0
                &&& state.last_roll matches Some(lr) && (5 <= lr.spec_value() <= 8)
            }) ==> old(self).num_lost < u32::MAX,
        ensures
            final(self).common.inv(),
            final(self).unit == old(self).unit && final(self).max_bet == old(self).max_bet,
            old(self).common.bankroll == 0 ==> final(self).common.model() == old(
                self,
            ).common.model() && final(self).num_lost == old(self).num_lost && r is Ok,
            old(self).common.bankroll != 0 ==> {
                &&& final(self).num_lost == next_num_lost(old(self).num_lost, state.last_roll)
                &&& (final(self).common.model(), r) == spec_add_bet(
                    old(self).common.model(),
                    (Bet {
                        bet_type: BetType::Field,
                        amount: martingale_field_amount(
                            old(self).unit,
                            next_num_lost(old(self).num_lost, state.last_roll),
                            old(self).max_bet,
                            old(self).common.bankroll,
                        ) as u32,
                        working: true,
                        point: None,
                    }),
                )
            },
            money_total(final(self).common.model()) == money_total(old(self).common.model()),
    {
        if self.common.bankroll == 0 {
            return Ok(());
        }
        if let Some(last_roll) = state.last_roll {
            let lv = last_roll.value();
            match lv {
                2 | 3 | 4 | 9 | 10 | 11 | 12 => {
                    self.num_lost = 0;
                },
                5 | 6 | 7 | 8 => {
                    self.num_lost = self.num_lost + 1;
                },
                _ => {
                    proof {
                        assert(false);
                    }
                },
            }
        }
        let shift: u32 = if self.num_lost < 32 {
            self.num_lost
        } else {
            32
        };
        let raw: u64 = (self.unit as u64) << shift;
        proof {
            vstd::arithmetic::power2::lemma2_to64();
            vstd::arithmetic::power2::lemma2_to64_rest();
            let sh = shift as nat;
            let lost = self.num_lost as nat;
            if sh < 32 {
                vstd::arithmetic::power2::lemma_pow2_strictly_increases(sh, 32nat);
            }
            vstd::arithmetic::mul::lemma_mul_upper_bound(
                self.unit as int,
                u32::MAX as int,
                vstd::arithmetic::power2::pow2(sh) as int,
                vstd::arithmetic::power2::pow2(32nat) as int,
            );
            vstd::bits::lemma_u64_shl_is_mul(self.unit as u64, shift as u64);
            if lost > sh {
                vstd::arithmetic::power2::lemma_pow2_strictly_increases(sh, lost);
                vstd::arithmetic::mul::lemma_mul_inequality(
                    vstd::arithmetic::power2::pow2(sh) as int,
                    vstd::arithmetic::power2::pow2(lost) as int,
                    self.unit as int,
                );
                if self.unit >= 1 {
                    vstd::arithmetic::mul::lemma_mul_inequality(
                        1int,
                        self.unit as int,
                        vstd::arithmetic::power2::pow2(sh) as int,
                    );
                }
            }
        }
        let cap: u32 = if self.max_bet < self.common.bankroll {
            self.max_bet
        } else {
            self.common.bankroll
        };
        let val: u32 = if raw < cap as u64 {
            raw as u32
        } else {
            cap
        };
        proof {
            let lost = next_num_lost(old(self).num_lost, state.last_roll);
            let u = old(self).unit as int;
            let raws = u * vstd::arithmetic::power2::pow2(lost as nat);
            assert(self.num_lost == lost);
            assert(raw == u * vstd::arithmetic::power2::pow2(shift as nat));
            if self.num_lost <= 32 {
                assert(shift as nat == lost as nat);
                assert(raw == raws);
            } else {
                if old(self).unit == 0 {
                    assert(raw == 0 && raws == 0) by (nonlinear_arith)
                        requires
                            raw == 0 * vstd::arithmetic::power2::pow2(shift as nat),
                            raws == 0 * vstd::arithmetic::power2::pow2(lost as nat),
                    ;
                } else {
                    let p_sh = vstd::arithmetic::power2::pow2(shift as nat);
                    let p_lost = vstd::arithmetic::power2::pow2(lost as nat);
                    assert(p_sh == 0x1_0000_0000);
                    assert(raw >= 0x1_0000_0000) by (nonlinear_arith)
                        requires
                            raw == u * p_sh,
                            p_sh == 0x1_0000_0000,
                            u >= 1,
                    ;
                    assert(raws >= raw) by (nonlinear_arith)
                        requires
                            raw == u * p_sh,
                            raws == u * p_lost,
                            p_lost >= p_sh,
                            u >= 0,
                    ;
                }
            }
            assert(val == martingale_field_amount(
                old(self).unit,
                lost,
                old(self).max_bet,
                old(self).common.bankroll,
            ) as u32);
        }
        self.common.add_bet(Bet::new_field(val))
    }
}

/// A slot that occurs in a prefix occurs in the whole sequence.
proof fn lemma_sum_key_prefix(s: Seq<Bet>, k: int, bt: BetType, point: Option<u8>)
    requires
        0 <= k <= s.len(),
    ensures
        key_count(s, bt, point) >= key_count(s.subrange(0, k), bt, point),
    decreases s.len() - k,
{
    if k == s.len() {
        assert(s.subrange(0, k) =~= s);
    } else {
        lemma_sum_key_prefix(s, k + 1, bt, point);
        assert(s.subrange(0, k + 1) =~= s.subrange(0, k).push(s[k]));
        lemma_sums_push(s.subrange(0, k), s[k], bt, point);
    }
}

} // verus!
