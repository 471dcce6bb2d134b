//! Splits the gross amount of a sale into the platform fee, the creator's
//! royalty and the seller's proceeds, and lists the payments that follow.

use vstd::prelude::*;
use crate::model::{payment_views, Payment, PaymentView, TransferReason};
use crate::types::{AccountId, AccountName, Balance};

verus! {

/// The three parts into which a sale's gross amount is split.
#[derive(Clone, Copy, Debug, PartialEq, Eq, Structural)]
pub struct Settlement {
    pub platform_fee: Balance,
    pub royalty_fee: Balance,
    pub seller_proceeds: Balance,
}

/// The platform's share: the gross amount divided by the fee divisor,
/// rounded down.
pub open spec fn platform_share(gross_amount: Balance, platform_fee_divisor: Balance) -> Balance
    recommends
        platform_fee_divisor > 0,
{
    (gross_amount as int / platform_fee_divisor as int) as Balance
}

/// The creator's share of what is left after the platform fee. A creator who
/// sells their own edition takes no royalty. Otherwise a numerator of 0
/// gives nothing, a numerator of 1 gives the whole remainder, and a larger
/// numerator gives the remainder divided by it, rounded down.
pub open spec fn royalty_share(
    remainder: Balance,
    seller_is_creator: bool,
    royalty_numerator: u32,
) -> Balance {
    if seller_is_creator || royalty_numerator == 0 {
        0
    } else if royalty_numerator == 1 {
        remainder
    } else {
        (remainder as int / royalty_numerator as int) as Balance
    }
}

/// The split of `gross_amount`.
pub open spec fn settlement_split(
    gross_amount: Balance,
    seller_is_creator: bool,
    royalty_numerator: u32,
    platform_fee_divisor: Balance,
) -> Settlement
    recommends
        platform_fee_divisor > 0,
{
    let platform_fee = platform_share(gross_amount, platform_fee_divisor);
    let remainder = (gross_amount - platform_fee) as Balance;
    let royalty_fee = royalty_share(remainder, seller_is_creator, royalty_numerator);
    Settlement {
        platform_fee,
        royalty_fee,
        seller_proceeds: (remainder - royalty_fee) as Balance,
    }
}

/// The payments that a split calls for, in the order in which they are made:
/// the platform fee always, the royalty and the proceeds only where they are
/// not zero.
pub open spec fn payments_due(
    split: Settlement,
    fee_receiver: AccountName,
    creator: AccountName,
    seller: AccountName,
) -> Seq<PaymentView> {
    let fee = seq![
        PaymentView { to: fee_receiver, amount: split.platform_fee, reason: TransferReason::FEE },
    ];
    let royalty = if split.royalty_fee > 0 {
        seq![
            PaymentView { to: creator, amount: split.royalty_fee, reason: TransferReason::ROYALTY },
        ]
    } else {
        Seq::empty()
    };
    let proceeds = if split.seller_proceeds > 0 {
        seq![
            PaymentView { to: seller, amount: split.seller_proceeds, reason: TransferReason::SALE },
        ]
    } else {
        Seq::empty()
    };
    fee + royalty + proceeds
}

/// The split is exact: whatever the royalty numerator, the three parts add
/// up to the gross amount, and none of them exceeds it.
pub proof fn lemma_split_is_exact(
    gross_amount: Balance,
    seller_is_creator: bool,
    royalty_numerator: u32,
    platform_fee_divisor: Balance,
)
    requires
        platform_fee_divisor > 0,
    ensures
        ({
            let split = settlement_split(
                gross_amount,
                seller_is_creator,
                royalty_numerator,
                platform_fee_divisor,
            );
            &&& split.platform_fee + split.royalty_fee + split.seller_proceeds == gross_amount
            &&& split.platform_fee == gross_amount as int / platform_fee_divisor as int
            &&& split.royalty_fee <= gross_amount - split.platform_fee
        }),
{
    let fee = gross_amount as int / platform_fee_divisor as int;
    assert(0 <= fee <= gross_amount) by (nonlinear_arith)
        requires
            fee == gross_amount as int / platform_fee_divisor as int,
            platform_fee_divisor > 0,
            gross_amount >= 0,
    ;
    let remainder = gross_amount - fee;
    if royalty_numerator > 1 {
        let part = remainder / royalty_numerator as int;
        assert(0 <= part <= remainder) by (nonlinear_arith)
            requires
                part == remainder / royalty_numerator as int,
                royalty_numerator > 1,
                remainder >= 0,
        ;
    }
}

/// Computes the split of a sale's gross amount.
pub fn settle(
    gross_amount: Balance,
    seller: &AccountId,
    creator: &AccountId,
    royalty_numerator: u32,
    platform_fee_divisor: Balance,
) -> (split: Settlement)
    requires
        platform_fee_divisor > 0,
    ensures
        split == settlement_split(
            gross_amount,
            seller@ == creator@,
            royalty_numerator,
            platform_fee_divisor,
        ),
        split.platform_fee + split.royalty_fee + split.seller_proceeds == gross_amount,
{
    proof {
        lemma_split_is_exact(
            gross_amount,
            seller@ == creator@,
            royalty_numerator,
            platform_fee_divisor,
        );
    }
    let platform_fee: Balance = gross_amount / platform_fee_divisor;
    let remainder: Balance = gross_amount - platform_fee;
    let royalty_fee: Balance = if *seller == *creator || royalty_numerator == 0 {
        0
    } else if royalty_numerator == 1 {
        remainder
    } else {
        remainder / (royalty_numerator as Balance)
    };
    Settlement { platform_fee, royalty_fee, seller_proceeds: remainder - royalty_fee }
}

/// Lists the payments that a split calls for, in the order in which they are
/// to be made.
pub fn payments(
    split: Settlement,
    fee_receiver: &AccountId,
    creator: &AccountId,
    seller: &AccountId,
) -> (list: Vec<Payment>)
    ensures
        payment_views(list@) == payments_due(split, fee_receiver@, creator@, seller@),
{
    let mut list: Vec<Payment> = Vec::new();
    list.push(
        Payment { to: fee_receiver.clone(), amount: split.platform_fee, reason: TransferReason::FEE },
    );
    if split.royalty_fee > 0 {
        list.push(
            Payment {
                to: creator.clone(),
                amount: split.royalty_fee,
                reason: TransferReason::ROYALTY,
            },
        );
    }
    if split.seller_proceeds > 0 {
        list.push(
            Payment {
                to: seller.clone(),
                amount: split.seller_proceeds,
                reason: TransferReason::SALE,
            },
        );
    }
    assert(payment_views(list@) =~= payments_due(split, fee_receiver@, creator@, seller@));
    list
}

} // verus!
