//! Settlements: what each wager and the house win or lose when a game has
//! ended.

use vstd::prelude::*;

use crate::player::Player;
use crate::wager::Wager;

verus! {

/// Why a game could not be settled.
#[derive(PartialEq, Eq, Debug)]
pub enum Error {
    /// A settlement of nothing was asked for.
    ZeroAmount,
    /// A player would lose more than the wager puts at risk: the player, the
    /// amount and the amount staked.
    LossExceedsWagerAmount(String, i32, i32),
    /// An amount is too large to be paid out.
    AmountOutOfRange,
}

/// An error, with the characters of the player's identifier.
pub enum ErrorView {
    ZeroAmount,
    LossExceedsWagerAmount(Seq<char>, int, int),
    AmountOutOfRange,
}

impl View for Error {
    type V = ErrorView;

    open spec fn view(&self) -> ErrorView {
        match self {
            Error::ZeroAmount => ErrorView::ZeroAmount,
            Error::LossExceedsWagerAmount(player, amount, staked) => {
                ErrorView::LossExceedsWagerAmount(player@, *amount as int, *staked as int)
            },
            Error::AmountOutOfRange => ErrorView::AmountOutOfRange,
        }
    }
}

/// What a payout says: who is paid, for which wager, and how much. The house
/// is paid for no wager. A positive amount is won, a negative one is lost.
pub struct PayoutView {
    pub player_id: Seq<char>,
    pub wager_id: Option<u32>,
    pub amount: int,
}

/// The settlement of one wager, or of the house.
#[derive(Debug)]
pub struct Payout {
    player_id: String,
    wager_id: Option<u32>,
    amount: i32,
}

impl View for Payout {
    type V = PayoutView;

    closed spec fn view(&self) -> PayoutView {
        PayoutView {
            player_id: self.player_id@,
            wager_id: self.wager_id,
            amount: self.amount as int,
        }
    }
}

/// The payout that `Payout::new` makes of its arguments, or the error that it
/// gives. Of the wager only the identifier and the amount staked count.
pub open spec fn checked_payout(
    player_id: Seq<char>,
    wager: Option<(u32, int)>,
    amount: int,
    max_loss: int,
) -> Result<PayoutView, ErrorView> {
    if amount == 0 {
        Err(ErrorView::ZeroAmount)
    } else if wager is Some && amount < 0 && -amount > max_loss {
        Err(ErrorView::LossExceedsWagerAmount(player_id, amount, wager->Some_0.1))
    } else {
        Ok(
            PayoutView {
                player_id,
                wager_id: match wager {
                    Some(wager) => Some(wager.0),
                    None => None,
                },
                amount,
            },
        )
    }
}

/// A result of `Payout::new` with the payout or the error taken by its view.
pub open spec fn payout_view(result: Result<Payout, Error>) -> Result<PayoutView, ErrorView> {
    match result {
        Ok(payout) => Ok(payout@),
        Err(error) => Err(error@),
    }
}

impl Payout {
    /// No payout is of nothing.
    #[verifier::type_invariant]
    pub open spec fn wf(self) -> bool {
        self@.amount != 0
    }

    /// The settlement of a wager, or of the house where there is no wager.
    /// `max_loss` is what the wager puts at risk; it counts for a wager only.
    pub fn new<T>(player_id: &str, opt_wager: Option<&Wager<T>>, amount: i32, max_loss: i64) -> (result:
        Result<Payout, Error>)
        ensures
            payout_view(result) == checked_payout(
                player_id@,
                match opt_wager {
                    Some(wager) => Some((wager.id(), wager.amount())),
                    None => None,
                },
                amount as int,
                max_loss as int,
            ),
            result matches Ok(payout) ==> payout.wf(),
    {
        if amount == 0 {
            return Err(Error::ZeroAmount);
        }
        match opt_wager {
            Some(wager) => {
                if amount < 0 && -(amount as i64) > max_loss {
                    return Err(
                        Error::LossExceedsWagerAmount(
                            player_id.to_owned(),
                            amount,
                            *wager.get_amount(),
                        ),
                    );
                }
                Ok(Payout { player_id: player_id.to_owned(), wager_id: Some(*wager.get_id()), amount })
            },
            None => Ok(Payout { player_id: player_id.to_owned(), wager_id: None, amount }),
        }
    }

    pub fn get_player_id(&self) -> (player_id: &str)
        ensures
            player_id@ == self@.player_id,
    {
        self.player_id.as_str()
    }

    pub fn get_wager_id(&self) -> (wager_id: Option<u32>)
        ensures
            wager_id == self@.wager_id,
    {
        self.wager_id
    }

    pub fn get_amount(&self) -> (amount: i32)
        ensures
            amount == self@.amount,
            amount != 0,
    {
        proof {
            use_type_invariant(self);
        }
        self.amount
    }
}

/// What one wager comes to when its game has ended.
pub struct Stake {
    /// The identifier of the player who made the wager.
    pub player_id: Seq<char>,
    /// The identifier of the wager.
    pub wager_id: u32,
    /// The amount staked.
    pub staked: int,
    /// What the player wins, or loses where it is negative.
    pub net: int,
    /// What the wager puts at risk: the most that the player may lose.
    pub max_loss: int,
}

/// A wager of an ended game, with what it won or lost and what it put at risk.
pub struct Outcome<'a, T> {
    pub player: &'a Player,
    pub wager: &'a Wager<T>,
    pub net: i64,
    pub max_loss: i64,
}

impl<'a, T> View for Outcome<'a, T> {
    type V = Stake;

    open spec fn view(&self) -> Stake {
        Stake {
            player_id: self.player@,
            wager_id: self.wager.id(),
            staked: self.wager.amount(),
            net: self.net as int,
            max_loss: self.max_loss as int,
        }
    }
}

/// `amount` times `factor`, for factors of the size of odds and counts.
pub(crate) fn scaled(amount: i32, factor: i64) -> (product: i64)
    requires
        -0xffff_ffff <= factor <= 0xffff_ffff,
    ensures
        product == amount * factor,
        -0x7fff_ffff_8000_0000 <= product <= 0x7fff_ffff_8000_0000,
        -0x8000_0000 <= factor <= 0x8000_0000 ==> -0x4000_0000_0000_0000 <= product
            <= 0x4000_0000_0000_0000,
{
    proof {
        if -0x8000_0000 <= factor <= 0x8000_0000 {
            assert(-0x8000_0000 * 0x8000_0000 <= amount * factor <= 0x8000_0000 * 0x8000_0000)
                by (nonlinear_arith)
                requires
                    -0x8000_0000 <= amount <= 0x7fff_ffff,
                    -0x8000_0000 <= factor <= 0x8000_0000,
            ;
        }
        assert(-0x8000_0000 * 0xffff_ffff <= amount * factor <= 0x8000_0000 * 0xffff_ffff)
            by (nonlinear_arith)
            requires
                -0x8000_0000 <= amount <= 0x7fff_ffff,
                -0xffff_ffff <= factor <= 0xffff_ffff,
        ;
    }
    amount as i64 * factor
}

/// What is wrong with a stake, if anything: the amount cannot be paid out,
/// or it is a loss above what the wager puts at risk.
pub open spec fn stake_fault(stake: Stake) -> Option<ErrorView> {
    if !(i32::MIN <= stake.net <= i32::MAX) {
        Some(ErrorView::AmountOutOfRange)
    } else if stake.net < 0 && -stake.net > stake.max_loss {
        Some(ErrorView::LossExceedsWagerAmount(stake.player_id, stake.net, stake.staked))
    } else {
        None
    }
}

/// What is wrong with the first stake with which something is wrong.
pub open spec fn first_fault(stakes: Seq<Stake>) -> Option<ErrorView>
    decreases stakes.len(),
{
    if stakes.len() == 0 {
        None
    } else {
        match first_fault(stakes.drop_last()) {
            Some(fault) => Some(fault),
            None => stake_fault(stakes.last()),
        }
    }
}

/// The payouts to the players: one for each stake that won or lost
/// something, in the order of the stakes.
pub open spec fn player_payouts(stakes: Seq<Stake>) -> Seq<PayoutView>
    decreases stakes.len(),
{
    if stakes.len() == 0 {
        Seq::empty()
    } else if stakes.last().net == 0 {
        player_payouts(stakes.drop_last())
    } else {
        player_payouts(stakes.drop_last()).push(
            PayoutView {
                player_id: stakes.last().player_id,
                wager_id: Some(stakes.last().wager_id),
                amount: stakes.last().net,
            },
        )
    }
}

/// What the players win, all stakes together.
pub open spec fn total_net(stakes: Seq<Stake>) -> int
    decreases stakes.len(),
{
    if stakes.len() == 0 {
        0
    } else {
        total_net(stakes.drop_last()) + stakes.last().net
    }
}

/// The settlement of a game. Something wrong with a stake fails it. Else the
/// players are paid in the order of the stakes, one payout for each stake but
/// those that come to nothing, and the house is paid last: it takes what the
/// players lose and pays what they win. A house that comes out even gets no
/// payout. An amount of the house that cannot be paid out fails the settlement.
pub open spec fn settlement(stakes: Seq<Stake>, house_id: Seq<char>) -> Result<
    Seq<PayoutView>,
    ErrorView,
> {
    if first_fault(stakes) is Some {
        Err(first_fault(stakes)->Some_0)
    } else if !(i32::MIN <= -total_net(stakes) <= i32::MAX) {
        Err(ErrorView::AmountOutOfRange)
    } else if total_net(stakes) == 0 {
        Ok(player_payouts(stakes))
    } else {
        Ok(
            player_payouts(stakes).push(
                PayoutView { player_id: house_id, wager_id: None, amount: -total_net(stakes) },
            ),
        )
    }
}

/// The sum of the amounts of some payouts.
pub open spec fn sum_amounts(payouts: Seq<PayoutView>) -> int
    decreases payouts.len(),
{
    if payouts.len() == 0 {
        0
    } else {
        sum_amounts(payouts.drop_last()) + payouts.last().amount
    }
}

/// The views of some payouts.
pub open spec fn payouts_view(payouts: Seq<Payout>) -> Seq<PayoutView> {
    Seq::new(payouts.len(), |i: int| payouts[i]@)
}

/// A result of a settlement with the payouts or the error taken by their views.
pub open spec fn settlement_view(result: Result<Vec<Payout>, Error>) -> Result<
    Seq<PayoutView>,
    ErrorView,
> {
    match result {
        Ok(payouts) => Ok(payouts_view(payouts@)),
        Err(error) => Err(error@),
    }
}

/// The views of some outcomes.
pub open spec fn stakes_of<T>(outcomes: Seq<Outcome<'_, T>>) -> Seq<Stake> {
    Seq::new(outcomes.len(), |i: int| outcomes[i]@)
}

/// Settles a game from what each of its wagers came to.
pub fn settle<T>(outcomes: &Vec<Outcome<'_, T>>, house_id: &str) -> (result: Result<
    Vec<Payout>,
    Error,
>)
    ensures
        settlement_view(result) == settlement(stakes_of(outcomes@), house_id@),
        result matches Ok(payouts) ==> sum_amounts(payouts_view(payouts@)) == 0,
{
    let ghost stakes = stakes_of(outcomes@);
    let mut payouts: Vec<Payout> = Vec::new();
    let mut house: i128 = 0;
    let mut k: usize = 0;
    while k < outcomes.len()
        invariant
            k <= outcomes@.len(),
            stakes == stakes_of(outcomes@),
            first_fault(stakes.take(k as int)) is None,
            payouts_view(payouts@) == player_payouts(stakes.take(k as int)),
            house == -total_net(stakes.take(k as int)),
            -k * 0x8000_0000 <= house <= k * 0x8000_0000,
        decreases outcomes@.len() - k,
    {
        let outcome = &outcomes[k];
        proof {
            assert(stakes.take(k + 1).drop_last() =~= stakes.take(k as int));
            assert(stakes.take(k + 1).last() == outcome@);
        }
        if outcome.net < i32::MIN as i64 || outcome.net > i32::MAX as i64 {
            proof {
                lemma_first_fault_prefix(stakes, k + 1);
            }
            return Err(Error::AmountOutOfRange);
        }
        let net = outcome.net as i32;
        if net != 0 {
            let ghost before = payouts_view(payouts@);
            match Payout::new(outcome.player.get_id(), Some(outcome.wager), net, outcome.max_loss) {
                Ok(payout) => {
                    payouts.push(payout);
                    proof {
                        assert(payouts_view(payouts@) =~= before.push(payout@));
                    }
                },
                Err(error) => {
                    proof {
                        lemma_first_fault_prefix(stakes, k + 1);
                    }
                    return Err(error);
                },
            }
        }
        house = house - net as i128;
        k += 1;
    }
    proof {
        assert(stakes.take(k as int) =~= stakes);
        lemma_sum_of_player_payouts(stakes);
    }
    if house != 0 {
        if house < i32::MIN as i128 || house > i32::MAX as i128 {
            return Err(Error::AmountOutOfRange);
        }
        let ghost before = payouts_view(payouts@);
        match Payout::new::<T>(house_id, None, house as i32, 0) {
            Ok(payout) => {
                payouts.push(payout);
                proof {
                    assert(payouts_view(payouts@) =~= before.push(payout@));
                    assert(payouts_view(payouts@).drop_last() =~= before);
                }
            },
            Err(error) => {
                return Err(error);
            },
        }
    }
    Ok(payouts)
}

/// The stake puts at risk what it loses: it is no loss above its risk.
pub open spec fn within_risk(stake: Stake) -> bool {
    !(stake.net < 0 && -stake.net > stake.max_loss)
}

/// Where every stake is within its risk, a settlement fails only because an
/// amount cannot be paid out.
pub proof fn lemma_settlement_within_risk(stakes: Seq<Stake>, house_id: Seq<char>)
    requires
        forall|k: int| 0 <= k < stakes.len() ==> within_risk(#[trigger] stakes[k]),
    ensures
        settlement(stakes, house_id) matches Err(error) ==> error == ErrorView::AmountOutOfRange,
    decreases stakes.len(),
{
    lemma_first_fault_within_risk(stakes);
}

/// Where every stake is within its risk, the first fault, if there is one,
/// is an amount that cannot be paid out.
proof fn lemma_first_fault_within_risk(stakes: Seq<Stake>)
    requires
        forall|k: int| 0 <= k < stakes.len() ==> within_risk(#[trigger] stakes[k]),
    ensures
        first_fault(stakes) matches Some(error) ==> error == ErrorView::AmountOutOfRange,
    decreases stakes.len(),
{
    if stakes.len() > 0 {
        assert forall|k: int| 0 <= k < stakes.drop_last().len() implies within_risk(
            #[trigger] stakes.drop_last()[k],
        ) by {
            assert(stakes.drop_last()[k] == stakes[k]);
        }
        lemma_first_fault_within_risk(stakes.drop_last());
        assert(within_risk(stakes[stakes.len() - 1]));
    }
}

/// What is wrong with the first faulty stake among the first `n` is what is
/// wrong with the first faulty stake of all.
pub proof fn lemma_first_fault_prefix(stakes: Seq<Stake>, n: int)
    requires
        0 <= n <= stakes.len(),
        first_fault(stakes.take(n)) is Some,
    ensures
        first_fault(stakes) == first_fault(stakes.take(n)),
    decreases stakes.len() - n,
{
    if n < stakes.len() {
        assert(stakes.take(n + 1).drop_last() =~= stakes.take(n));
        lemma_first_fault_prefix(stakes, n + 1);
    } else {
        assert(stakes.take(n) =~= stakes);
    }
}

/// The payouts to the players sum to what the players win.
pub proof fn lemma_sum_of_player_payouts(stakes: Seq<Stake>)
    ensures
        sum_amounts(player_payouts(stakes)) == total_net(stakes),
    decreases stakes.len(),
{
    if stakes.len() > 0 {
        lemma_sum_of_player_payouts(stakes.drop_last());
        if stakes.last().net != 0 {
            assert(player_payouts(stakes).drop_last() =~= player_payouts(stakes.drop_last()));
        }
    }
}

/// The payouts of a settled game sum to zero: what the players win the
/// house loses, and what they lose it wins.
pub proof fn lemma_settlement_sums_to_zero(stakes: Seq<Stake>, house_id: Seq<char>)
    requires
        settlement(stakes, house_id) is Ok,
    ensures
        sum_amounts(settlement(stakes, house_id)->Ok_0) == 0,
{
    lemma_sum_of_player_payouts(stakes);
    if total_net(stakes) != 0 {
        let payouts = settlement(stakes, house_id)->Ok_0;
        assert(payouts.drop_last() =~= player_payouts(stakes));
    }
}

/// A settled game pays for each wager at most once, and never an amount of
/// zero.
pub proof fn lemma_no_payout_of_nothing(stakes: Seq<Stake>, house_id: Seq<char>)
    requires
        settlement(stakes, house_id) is Ok,
    ensures
        forall|i: int|
            0 <= i < settlement(stakes, house_id)->Ok_0.len() ==> (#[trigger] settlement(
                stakes,
                house_id,
            )->Ok_0[i]).amount != 0,
{
    lemma_player_payouts_nonzero(stakes);
}

/// No payout to a player is of nothing.
proof fn lemma_player_payouts_nonzero(stakes: Seq<Stake>)
    ensures
        forall|i: int|
            0 <= i < player_payouts(stakes).len() ==> (#[trigger] player_payouts(stakes)[i]).amount
                != 0,
    decreases stakes.len(),
{
    if stakes.len() > 0 {
        lemma_player_payouts_nonzero(stakes.drop_last());
    }
}

} // verus!
