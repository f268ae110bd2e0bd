//! The records of the ledger and the values that travel with a call, each
//! with its mathematical view.

use vstd::prelude::*;

verus! {

/// The point at which a grant stops being valid.
#[derive(Clone, Copy, Debug, PartialEq, Eq)]
pub enum Expiration {
    /// Expired once the block height has reached this value.
    AtHeight(u64),
    /// Expired once the block time, in nanoseconds, has reached this value.
    AtTime(u64),
    /// Never expires.
    Never,
}

/// The block in which a call runs.
#[derive(Debug, PartialEq, Eq)]
pub struct BlockInfo {
    pub height: u64,
    /// Nanoseconds since the epoch.
    pub time: u64,
    pub chain_id: String,
}

/// What the host tells a call about its surroundings.
#[derive(Debug, PartialEq, Eq)]
pub struct Env {
    pub block: BlockInfo,
}

/// An amount of one currency.
#[derive(Debug, PartialEq, Eq)]
pub struct Coin {
    pub denom: String,
    pub amount: u128,
}

/// A coin as a value: the name of its currency and the amount.
pub struct CoinView {
    pub denom: Seq<char>,
    pub amount: u128,
}

/// Who sent a message, and the funds attached to it.
#[derive(Debug, PartialEq, Eq)]
pub struct MessageInfo {
    pub sender: String,
    pub funds: Vec<Coin>,
}

/// The right of one spender to move one token until the grant expires.
#[derive(Debug, PartialEq, Eq)]
pub struct Approval {
    pub spender: String,
    pub expires: Expiration,
}

/// An approval as a value.
pub struct ApprovalView {
    pub spender: Seq<char>,
    pub expires: Expiration,
}

/// One descriptive attribute of a token.
#[derive(Debug, PartialEq, Eq)]
pub struct Trait {
    pub display_type: Option<String>,
    pub trait_type: String,
    pub value: String,
}

/// An attribute as a value.
pub struct TraitView {
    pub display_type: Option<Seq<char>>,
    pub trait_type: Seq<char>,
    pub value: Seq<char>,
}

/// What a token carries beyond its owner: descriptive fields, and the three
/// fields that the marketplace reads and writes.
#[derive(Debug, PartialEq, Eq)]
pub struct Metadata {
    pub image: Option<String>,
    pub image_data: Option<String>,
    pub external_url: Option<String>,
    pub description: Option<String>,
    pub name: Option<String>,
    pub attributes: Option<Vec<Trait>>,
    pub background_color: Option<String>,
    pub animation_url: Option<String>,
    pub youtube_url: Option<String>,
    /// The cut that the minter takes when the token is sold.
    pub royalty_percentage: Option<u64>,
    /// Where royalties are paid.
    pub royalty_payment_address: Option<String>,
    /// The asking price. A token is for sale when this is present and positive.
    pub list_price: Option<u64>,
    /// A locked token cannot be listed, moved or approved.
    pub locked: bool,
    /// A redeemed ticket has been used; this is final.
    pub redeemed: bool,
}

/// Metadata as a value: every text as a sequence of characters.
pub struct MetadataView {
    pub image: Option<Seq<char>>,
    pub image_data: Option<Seq<char>>,
    pub external_url: Option<Seq<char>>,
    pub description: Option<Seq<char>>,
    pub name: Option<Seq<char>>,
    pub attributes: Option<Seq<TraitView>>,
    pub background_color: Option<Seq<char>>,
    pub animation_url: Option<Seq<char>>,
    pub youtube_url: Option<Seq<char>>,
    pub royalty_percentage: Option<u64>,
    pub royalty_payment_address: Option<Seq<char>>,
    pub list_price: Option<u64>,
    pub locked: bool,
    pub redeemed: bool,
}

/// What the ledger keeps for a token beside its owner and approvals.
pub type Extension = Option<Metadata>;

/// What a request to mint may say of the metadata.
pub type MintExtension = Option<Extension>;

/// The record that the ledger keeps for one token.
#[derive(Debug, PartialEq, Eq)]
pub struct TokenInfo {
    pub owner: String,
    pub approvals: Vec<Approval>,
    pub token_uri: Option<String>,
    pub extension: Option<Metadata>,
}

/// A token record as a value.
pub struct TokenInfoView {
    pub owner: Seq<char>,
    pub approvals: Seq<ApprovalView>,
    pub token_uri: Option<Seq<char>>,
    pub extension: Option<MetadataView>,
}

impl Expiration {
    /// Whether the grant has run out in a block of the given height and time:
    /// a height or a time is reached as soon as the block's is equal to it.
    pub open spec fn expired_at(self, height: u64, time: u64) -> bool {
        match self {
            Expiration::AtHeight(h) => height >= h,
            Expiration::AtTime(t) => time >= t,
            Expiration::Never => false,
        }
    }

    /// Whether the grant has run out in `block`.
    pub fn is_expired(&self, block: &BlockInfo) -> (r: bool)
        ensures
            r == self.expired_at(block.height, block.time),
    {
        expired_in(self, block)
    }
}

/// Asks `cw_utils::Expiration::is_expired` whether `expires` has run out in
/// `block`. Trusted: the answer is taken to be `true` exactly when the
/// height, or the time in nanoseconds, that `expires` names has been reached
/// by the block's, and `false` for a grant that never expires.
#[verifier::external_body]
pub(crate) fn expired_in(expires: &Expiration, block: &BlockInfo) -> (r: bool)
    ensures
        r == expires.expired_at(block.height, block.time),
{
    let outside = match expires {
        Expiration::AtHeight(h) => cw_utils::Expiration::AtHeight(*h),
        Expiration::AtTime(t) => cw_utils::Expiration::AtTime(cosmwasm_std::Timestamp::from_nanos(*t)),
        Expiration::Never => cw_utils::Expiration::Never {},
    };
    let at = cosmwasm_std::BlockInfo {
        height: block.height,
        time: cosmwasm_std::Timestamp::from_nanos(block.time),
        chain_id: block.chain_id.clone(),
    };
    outside.is_expired(&at)
}

/// The view of an optional string.
pub open spec fn opt_text(o: Option<String>) -> Option<Seq<char>> {
    match o {
        Some(s) => Some(s@),
        None => None,
    }
}

/// The view of optional metadata.
pub open spec fn opt_meta(o: Option<Metadata>) -> Option<MetadataView> {
    match o {
        Some(m) => Some(m@),
        None => None,
    }
}

/// The views of a list of attributes.
pub open spec fn traits_view(v: Seq<Trait>) -> Seq<TraitView> {
    Seq::new(v.len(), |i: int| v[i]@)
}

/// The views of a list of approvals.
pub open spec fn approvals_view(v: Seq<Approval>) -> Seq<ApprovalView> {
    Seq::new(v.len(), |i: int| v[i]@)
}

/// The views of a list of coins.
pub open spec fn coins_view(v: Seq<Coin>) -> Seq<CoinView> {
    Seq::new(v.len(), |i: int| v[i]@)
}

impl View for Coin {
    type V = CoinView;

    open spec fn view(&self) -> CoinView {
        CoinView { denom: self.denom@, amount: self.amount }
    }
}

impl View for Approval {
    type V = ApprovalView;

    open spec fn view(&self) -> ApprovalView {
        ApprovalView { spender: self.spender@, expires: self.expires }
    }
}

impl View for Trait {
    type V = TraitView;

    open spec fn view(&self) -> TraitView {
        TraitView {
            display_type: opt_text(self.display_type),
            trait_type: self.trait_type@,
            value: self.value@,
        }
    }
}

impl View for Metadata {
    type V = MetadataView;

    open spec fn view(&self) -> MetadataView {
        MetadataView {
            image: opt_text(self.image),
            image_data: opt_text(self.image_data),
            external_url: opt_text(self.external_url),
            description: opt_text(self.description),
            name: opt_text(self.name),
            attributes: match self.attributes {
                Some(v) => Some(traits_view(v@)),
                None => None,
            },
            background_color: opt_text(self.background_color),
            animation_url: opt_text(self.animation_url),
            youtube_url: opt_text(self.youtube_url),
            royalty_percentage: self.royalty_percentage,
            royalty_payment_address: opt_text(self.royalty_payment_address),
            list_price: self.list_price,
            locked: self.locked,
            redeemed: self.redeemed,
        }
    }
}

impl View for TokenInfo {
    type V = TokenInfoView;

    open spec fn view(&self) -> TokenInfoView {
        TokenInfoView {
            owner: self.owner@,
            approvals: approvals_view(self.approvals@),
            token_uri: opt_text(self.token_uri),
            extension: opt_meta(self.extension),
        }
    }
}

/// The metadata with which a token starts when nothing is said about it:
/// no descriptive field, not for sale, neither locked nor redeemed.
pub open spec fn blank_metadata() -> MetadataView {
    MetadataView {
        image: None,
        image_data: None,
        external_url: None,
        description: None,
        name: None,
        attributes: None,
        background_color: None,
        animation_url: None,
        youtube_url: None,
        royalty_percentage: None,
        royalty_payment_address: None,
        list_price: None,
        locked: false,
        redeemed: false,
    }
}

/// Copies an optional string.
pub fn copy_text(o: &Option<String>) -> (r: Option<String>)
    ensures
        opt_text(r) == opt_text(*o),
{
    match o {
        Some(s) => Some(s.clone()),
        None => None,
    }
}

impl Coin {
    /// A coin of `amount` units of the currency `denom`.
    pub fn new(amount: u128, denom: &str) -> (r: Coin)
        ensures
            r@ == (CoinView { denom: denom@, amount }),
    {
        Coin { denom: denom.to_owned(), amount }
    }
}

impl Clone for Coin {
    fn clone(&self) -> (r: Self)
        ensures
            r@ == self@,
    {
        Coin { denom: self.denom.clone(), amount: self.amount }
    }
}

impl Clone for BlockInfo {
    fn clone(&self) -> (r: Self)
        ensures
            r.height == self.height,
            r.time == self.time,
            r.chain_id@ == self.chain_id@,
    {
        BlockInfo { height: self.height, time: self.time, chain_id: self.chain_id.clone() }
    }
}

impl Clone for Env {
    fn clone(&self) -> (r: Self)
        ensures
            r.block.height == self.block.height,
            r.block.time == self.block.time,
            r.block.chain_id@ == self.block.chain_id@,
    {
        Env { block: self.block.clone() }
    }
}

impl Clone for MessageInfo {
    fn clone(&self) -> (r: Self)
        ensures
            r.sender@ == self.sender@,
            coins_view(r.funds@) == coins_view(self.funds@),
    {
        let mut funds: Vec<Coin> = Vec::new();
        let mut i: usize = 0;
        while i < self.funds.len()
            invariant
                i <= self.funds.len(),
                funds.len() == i,
                forall|j: int| 0 <= j < i ==> funds[j]@ == self.funds[j]@,
            decreases self.funds.len() - i,
        {
            funds.push(self.funds[i].clone());
            i = i + 1;
        }
        MessageInfo { sender: self.sender.clone(), funds }
    }
}

impl Clone for Approval {
    fn clone(&self) -> (r: Self)
        ensures
            r@ == self@,
    {
        Approval { spender: self.spender.clone(), expires: self.expires }
    }
}

impl Clone for Trait {
    fn clone(&self) -> (r: Self)
        ensures
            r@ == self@,
    {
        Trait {
            display_type: copy_text(&self.display_type),
            trait_type: self.trait_type.clone(),
            value: self.value.clone(),
        }
    }
}

impl Default for Metadata {
    fn default() -> (r: Self)
        ensures
            r@ == blank_metadata(),
    {
        Metadata {
            image: None,
            image_data: None,
            external_url: None,
            description: None,
            name: None,
            attributes: None,
            background_color: None,
            animation_url: None,
            youtube_url: None,
            royalty_percentage: None,
            royalty_payment_address: None,
            list_price: None,
            locked: false,
            redeemed: false,
        }
    }
}

impl Clone for Metadata {
    fn clone(&self) -> (r: Self)
        ensures
            r@ == self@,
    {
        let attributes = match &self.attributes {
            Some(v) => {
                let mut out: Vec<Trait> = Vec::new();
                let mut i: usize = 0;
                while i < v.len()
                    invariant
                        i <= v.len(),
                        out.len() == i,
                        forall|j: int| 0 <= j < i ==> out[j]@ == v[j]@,
                    decreases v.len() - i,
                {
                    out.push(v[i].clone());
                    i = i + 1;
                }
                assert(traits_view(out@) =~= traits_view(v@));
                Some(out)
            },
            None => None,
        };
        Metadata {
            image: copy_text(&self.image),
            image_data: copy_text(&self.image_data),
            external_url: copy_text(&self.external_url),
            description: copy_text(&self.description),
            name: copy_text(&self.name),
            attributes,
            background_color: copy_text(&self.background_color),
            animation_url: copy_text(&self.animation_url),
            youtube_url: copy_text(&self.youtube_url),
            royalty_percentage: self.royalty_percentage,
            royalty_payment_address: copy_text(&self.royalty_payment_address),
            list_price: self.list_price,
            locked: self.locked,
            redeemed: self.redeemed,
        }
    }
}

impl Clone for TokenInfo {
    fn clone(&self) -> (r: Self)
        ensures
            r@ == self@,
    {
        let mut approvals: Vec<Approval> = Vec::new();
        let mut i: usize = 0;
        while i < self.approvals.len()
            invariant
                i <= self.approvals.len(),
                approvals.len() == i,
                forall|j: int| 0 <= j < i ==> approvals[j]@ == self.approvals[j]@,
            decreases self.approvals.len() - i,
        {
            approvals.push(self.approvals[i].clone());
            i = i + 1;
        }
        assert(approvals_view(approvals@) =~= approvals_view(self.approvals@));
        let extension = match &self.extension {
            Some(m) => Some(m.clone()),
            None => None,
        };
        TokenInfo {
            owner: self.owner.clone(),
            approvals,
            token_uri: copy_text(&self.token_uri),
            extension,
        }
    }
}

} // verus!
