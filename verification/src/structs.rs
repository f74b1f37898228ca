//! The asset and order model: what can be listed, what can be paid, and the
//! listing record itself.

use vstd::prelude::*;
use crate::context::BlockInfo;

verus! {

/// Whether an order was created by a seller (listing) or a would-be buyer
/// (offer). Only listings are settled by the current engine.
#[derive(Clone, Copy, PartialEq, Eq, Structural, Debug)]
pub enum OrderType {
    OFFER,
    LISTING,
}

/// The two legs of an order.
#[derive(Clone, Copy, PartialEq, Eq, Structural, Debug)]
pub enum Side {
    OFFER,
    CONSIDERATION,
}

/// The kind of asset an order item carries.
#[derive(Clone, Copy, PartialEq, Eq, Structural, Debug)]
pub enum ItemType {
    NATIVE,
    CW20,
    CW721,
}

/// A point after which something expires: at a block height, at a block time
/// (nanoseconds), or never.
#[derive(Clone, Copy, PartialEq, Eq, Structural, Debug)]
pub enum Expiration {
    AtHeight(u64),
    AtTime(u64),
    Never,
}

/// Whether `e` has expired in block `b`: a height or time bound counts as
/// expired exactly when the block has reached it.
pub open spec fn expiration_expired(e: Expiration, b: BlockInfo) -> bool {
    match e {
        Expiration::AtHeight(h) => b.height >= h,
        Expiration::AtTime(t) => b.time >= t,
        Expiration::Never => false,
    }
}

/// The partial order on expirations, as `a >= b`: bounds of the same kind
/// compare by their value, `Never` is greater than everything, and a height
/// bound is incomparable with a time bound (so neither is `>=` the other).
pub open spec fn expiration_ge(a: Expiration, b: Expiration) -> bool {
    match (a, b) {
        (Expiration::AtHeight(h1), Expiration::AtHeight(h2)) => h1 >= h2,
        (Expiration::AtTime(t1), Expiration::AtTime(t2)) => t1 >= t2,
        (Expiration::Never, _) => true,
        (_, Expiration::Never) => false,
        _ => false,
    }
}

impl Expiration {
    /// Whether this expiration has passed in block `block`.
    pub fn is_expired(&self, block: &BlockInfo) -> (r: bool)
        ensures
            r == expiration_expired(*self, *block),
    {
        match self {
            Expiration::AtHeight(h) => block.height >= *h,
            Expiration::AtTime(t) => block.time >= *t,
            Expiration::Never => false,
        }
    }

    /// Exec counterpart of [`expiration_ge`].
    pub fn ge(&self, other: &Expiration) -> (r: bool)
        ensures
            r == expiration_ge(*self, *other),
    {
        match (self, other) {
            (Expiration::AtHeight(h1), Expiration::AtHeight(h2)) => h1 >= h2,
            (Expiration::AtTime(t1), Expiration::AtTime(t2)) => t1 >= t2,
            (Expiration::Never, _) => true,
            (_, Expiration::Never) => false,
            _ => false,
        }
    }
}

/// A non-fungible token: a collection contract and, where one specific token
/// is meant, its id.
pub struct NftAsset {
    pub contract_address: String,
    pub token_id: Option<String>,
}

/// Mathematical image of [`NftAsset`].
#[verifier::ext_equal]
pub struct NftAssetV {
    pub contract_address: Seq<char>,
    pub token_id: Option<Seq<char>>,
}

impl DeepView for NftAsset {
    type V = NftAssetV;

    open spec fn deep_view(&self) -> NftAssetV {
        NftAssetV {
            contract_address: self.contract_address@,
            token_id: self.token_id.deep_view(),
        }
    }
}

impl Clone for NftAsset {
    fn clone(&self) -> (r: Self)
        ensures
            r.deep_view() == self.deep_view(),
    {
        NftAsset {
            contract_address: self.contract_address.clone(),
            token_id: match &self.token_id {
                Some(t) => Some(t.clone()),
                None => None,
            },
        }
    }
}

/// A quantity of a fungible token ledger.
pub struct Cw20Asset {
    pub contract_address: String,
    pub amount: u128,
}

/// Mathematical image of [`Cw20Asset`].
#[verifier::ext_equal]
pub struct Cw20AssetV {
    pub contract_address: Seq<char>,
    pub amount: u128,
}

impl DeepView for Cw20Asset {
    type V = Cw20AssetV;

    open spec fn deep_view(&self) -> Cw20AssetV {
        Cw20AssetV { contract_address: self.contract_address@, amount: self.amount }
    }
}

impl Clone for Cw20Asset {
    fn clone(&self) -> (r: Self)
        ensures
            r.deep_view() == self.deep_view(),
    {
        Cw20Asset { contract_address: self.contract_address.clone(), amount: self.amount }
    }
}

/// A quantity of the native currency.
pub struct NativeAsset {
    pub denom: String,
    pub amount: u128,
}

/// Mathematical image of [`NativeAsset`].
#[verifier::ext_equal]
pub struct NativeAssetV {
    pub denom: Seq<char>,
    pub amount: u128,
}

impl DeepView for NativeAsset {
    type V = NativeAssetV;

    open spec fn deep_view(&self) -> NativeAssetV {
        NativeAssetV { denom: self.denom@, amount: self.amount }
    }
}

impl Clone for NativeAsset {
    fn clone(&self) -> (r: Self)
        ensures
            r.deep_view() == self.deep_view(),
    {
        NativeAsset { denom: self.denom.clone(), amount: self.amount }
    }
}

/// Any asset an order item can carry.
pub enum Asset {
    Nft(NftAsset),
    Native(NativeAsset),
    Cw20(Cw20Asset),
}

/// Mathematical image of [`Asset`].
#[verifier::ext_equal]
pub enum AssetV {
    Nft(NftAssetV),
    Native(NativeAssetV),
    Cw20(Cw20AssetV),
}

impl DeepView for Asset {
    type V = AssetV;

    open spec fn deep_view(&self) -> AssetV {
        match self {
            Asset::Nft(a) => AssetV::Nft(a.deep_view()),
            Asset::Native(a) => AssetV::Native(a.deep_view()),
            Asset::Cw20(a) => AssetV::Cw20(a.deep_view()),
        }
    }
}

impl Clone for Asset {
    fn clone(&self) -> (r: Self)
        ensures
            r.deep_view() == self.deep_view(),
    {
        match self {
            Asset::Nft(a) => Asset::Nft(a.clone()),
            Asset::Native(a) => Asset::Native(a.clone()),
            Asset::Cw20(a) => Asset::Cw20(a.clone()),
        }
    }
}

/// An asset that can serve as payment: native currency or a fungible token.
pub enum PaymentAsset {
    Native { denom: String, amount: u128 },
    Cw20 { contract_address: String, amount: u128 },
}

/// Mathematical image of [`PaymentAsset`].
#[verifier::ext_equal]
pub enum PaymentAssetV {
    Native { denom: Seq<char>, amount: u128 },
    Cw20 { contract_address: Seq<char>, amount: u128 },
}

impl DeepView for PaymentAsset {
    type V = PaymentAssetV;

    open spec fn deep_view(&self) -> PaymentAssetV {
        match self {
            PaymentAsset::Native { denom, amount } => (PaymentAssetV::Native {
                denom: denom@,
                amount: *amount,
            }),
            PaymentAsset::Cw20 { contract_address, amount } => (PaymentAssetV::Cw20 {
                contract_address: contract_address@,
                amount: *amount,
            }),
        }
    }
}

impl Clone for PaymentAsset {
    fn clone(&self) -> (r: Self)
        ensures
            r.deep_view() == self.deep_view(),
    {
        match self {
            PaymentAsset::Native { denom, amount } => (PaymentAsset::Native {
                denom: denom.clone(),
                amount: *amount,
            }),
            PaymentAsset::Cw20 { contract_address, amount } => (PaymentAsset::Cw20 {
                contract_address: contract_address.clone(),
                amount: *amount,
            }),
        }
    }
}

/// The amount a payment asset demands.
pub open spec fn payment_amount(p: PaymentAssetV) -> u128 {
    match p {
        PaymentAssetV::Native { amount, .. } => amount,
        PaymentAssetV::Cw20 { amount, .. } => amount,
    }
}

/// The payment view of an asset. The NFT arm is a placeholder: callers must
/// rule it out, as an NFT cannot serve as payment.
pub open spec fn payment_of_asset(a: AssetV) -> PaymentAssetV {
    match a {
        AssetV::Native(na) => PaymentAssetV::Native { denom: na.denom, amount: na.amount },
        AssetV::Cw20(ca) => (PaymentAssetV::Cw20 {
            contract_address: ca.contract_address,
            amount: ca.amount,
        }),
        AssetV::Nft(_) => PaymentAssetV::Native { denom: Seq::empty(), amount: 0 },
    }
}

impl From<PaymentAsset> for Asset {
    fn from(asset: PaymentAsset) -> Self {
        match asset {
            PaymentAsset::Native { denom, amount } => Asset::Native(
                NativeAsset { denom, amount },
            ),
            PaymentAsset::Cw20 { contract_address, amount } => Asset::Cw20(
                Cw20Asset { contract_address, amount },
            ),
        }
    }
}

impl vstd::std_specs::convert::FromSpecImpl<PaymentAsset> for Asset {
    open spec fn obeys_from_spec() -> bool {
        true
    }

    open spec fn from_spec(v: PaymentAsset) -> Asset {
        match v {
            PaymentAsset::Native { denom, amount } => Asset::Native(
                NativeAsset { denom, amount },
            ),
            PaymentAsset::Cw20 { contract_address, amount } => Asset::Cw20(
                Cw20Asset { contract_address, amount },
            ),
        }
    }
}

impl PaymentAsset {
    /// The payment view of an asset. An NFT is not a payment asset; such an
    /// input is excluded, where the caller would panic otherwise.
    pub fn from_asset(asset: Asset) -> (r: PaymentAsset)
        requires
            !(asset is Nft),
        ensures
            r.deep_view() == payment_of_asset(asset.deep_view()),
    {
        match asset {
            Asset::Native(NativeAsset { denom, amount }) => PaymentAsset::Native { denom, amount },
            Asset::Cw20(Cw20Asset { contract_address, amount }) => (PaymentAsset::Cw20 {
                contract_address,
                amount,
            }),
            Asset::Nft(a) => PaymentAsset::Native { denom: String::new(), amount: 0 },
        }
    }
}

/// One item of an order's offer leg: what the order's owner gives up.
pub struct OfferItem {
    pub item_type: ItemType,
    pub item: Asset,
    pub start_amount: u128,
    pub end_amount: u128,
}

/// Mathematical image of [`OfferItem`].
#[verifier::ext_equal]
pub struct OfferItemV {
    pub item_type: ItemType,
    pub item: AssetV,
    pub start_amount: u128,
    pub end_amount: u128,
}

impl DeepView for OfferItem {
    type V = OfferItemV;

    open spec fn deep_view(&self) -> OfferItemV {
        OfferItemV {
            item_type: self.item_type,
            item: self.item.deep_view(),
            start_amount: self.start_amount,
            end_amount: self.end_amount,
        }
    }
}

impl Clone for OfferItem {
    fn clone(&self) -> (r: Self)
        ensures
            r.deep_view() == self.deep_view(),
    {
        OfferItem {
            item_type: self.item_type,
            item: self.item.clone(),
            start_amount: self.start_amount,
            end_amount: self.end_amount,
        }
    }
}

/// Builds an [`OfferItem`] from its parts.
pub fn offer_item(item_type: &ItemType, item: &Asset, start_amount: &u128, end_amount: &u128) -> (r:
    OfferItem)
    ensures
        r.deep_view() == (OfferItemV {
            item_type: *item_type,
            item: item.deep_view(),
            start_amount: *start_amount,
            end_amount: *end_amount,
        }),
{
    OfferItem {
        item_type: *item_type,
        item: item.clone(),
        start_amount: *start_amount,
        end_amount: *end_amount,
    }
}

/// One item of an order's consideration leg: what the order's owner demands,
/// and for whom.
pub struct ConsiderationItem {
    pub item_type: ItemType,
    pub item: Asset,
    pub start_amount: u128,
    pub end_amount: u128,
    pub recipient: String,
}

/// Mathematical image of [`ConsiderationItem`].
#[verifier::ext_equal]
pub struct ConsiderationItemV {
    pub item_type: ItemType,
    pub item: AssetV,
    pub start_amount: u128,
    pub end_amount: u128,
    pub recipient: Seq<char>,
}

impl DeepView for ConsiderationItem {
    type V = ConsiderationItemV;

    open spec fn deep_view(&self) -> ConsiderationItemV {
        ConsiderationItemV {
            item_type: self.item_type,
            item: self.item.deep_view(),
            start_amount: self.start_amount,
            end_amount: self.end_amount,
            recipient: self.recipient@,
        }
    }
}

impl Clone for ConsiderationItem {
    fn clone(&self) -> (r: Self)
        ensures
            r.deep_view() == self.deep_view(),
    {
        ConsiderationItem {
            item_type: self.item_type,
            item: self.item.clone(),
            start_amount: self.start_amount,
            end_amount: self.end_amount,
            recipient: self.recipient.clone(),
        }
    }
}

/// Builds a [`ConsiderationItem`] from its parts.
pub fn consideration_item(
    item_type: &ItemType,
    item: &Asset,
    start_amount: &u128,
    end_amount: &u128,
    recipient: &String,
) -> (r: ConsiderationItem)
    ensures
        r.deep_view() == (ConsiderationItemV {
            item_type: *item_type,
            item: item.deep_view(),
            start_amount: *start_amount,
            end_amount: *end_amount,
            recipient: recipient@,
        }),
{
    ConsiderationItem {
        item_type: *item_type,
        item: item.clone(),
        start_amount: *start_amount,
        end_amount: *end_amount,
        recipient: recipient.clone(),
    }
}

/// Builds an order id: the owner, the collection address and the token id.
pub fn order_id(user_address: &String, contract_address: &String, token_id: &str) -> (r: (
    String,
    String,
    String,
))
    ensures
        r.0@ == user_address@,
        r.1@ == contract_address@,
        r.2@ == token_id@,
{
    (user_address.clone(), contract_address.clone(), token_id.to_owned())
}

/// An order: a listing (or offer) binding an offer leg to a consideration leg
/// within an optional time window.
pub struct Order {
    pub order_type: OrderType,
    pub order_id: (String, String, String),
    pub owner: String,
    pub offer: Vec<OfferItem>,
    pub consideration: Vec<ConsiderationItem>,
    pub start_time: Option<Expiration>,
    pub end_time: Option<Expiration>,
}

/// Mathematical image of [`Order`].
#[verifier::ext_equal]
pub struct OrderV {
    pub order_type: OrderType,
    pub order_id: (Seq<char>, Seq<char>, Seq<char>),
    pub owner: Seq<char>,
    pub offer: Seq<OfferItemV>,
    pub consideration: Seq<ConsiderationItemV>,
    pub start_time: Option<Expiration>,
    pub end_time: Option<Expiration>,
}

impl DeepView for Order {
    type V = OrderV;

    open spec fn deep_view(&self) -> OrderV {
        OrderV {
            order_type: self.order_type,
            order_id: (self.order_id.0@, self.order_id.1@, self.order_id.2@),
            owner: self.owner@,
            offer: self.offer.deep_view(),
            consideration: self.consideration.deep_view(),
            start_time: self.start_time,
            end_time: self.end_time,
        }
    }
}

/// The registry key of an order: the collection address and token id from its
/// order id.
pub open spec fn order_key(o: OrderV) -> (Seq<char>, Seq<char>) {
    (o.order_id.1, o.order_id.2)
}

/// Whether the order's end time has passed in block `b`.
pub open spec fn order_expired(o: OrderV, b: BlockInfo) -> bool {
    match o.end_time {
        Some(t) => expiration_expired(t, b),
        None => false,
    }
}

impl Clone for Order {
    fn clone(&self) -> (r: Self)
        ensures
            r.deep_view() == self.deep_view(),
    {
        let offer = clone_offer_items(&self.offer);
        let consideration = clone_consideration_items(&self.consideration);
        Order {
            order_type: self.order_type,
            order_id: (self.order_id.0.clone(), self.order_id.1.clone(), self.order_id.2.clone()),
            owner: self.owner.clone(),
            offer,
            consideration,
            start_time: self.start_time,
            end_time: self.end_time,
        }
    }
}

fn clone_offer_items(v: &Vec<OfferItem>) -> (r: Vec<OfferItem>)
    ensures
        r.deep_view() == v.deep_view(),
{
    let mut r: Vec<OfferItem> = Vec::new();
    let mut i: usize = 0;
    while i < v.len()
        invariant
            i <= v.len(),
            r.deep_view() =~= v.deep_view().take(i as int),
        decreases v.len() - i,
    {
        let ghost rv0 = r@;
        proof {
            assert(r.deep_view().len() == i as int);
            assert(rv0.len() == i as int);
        }
        let elem = v[i].clone();
        let ghost ee = elem;
        r.push(elem);
        proof {
            assert(r@ == rv0.push(ee));
            assert forall|j: int| 0 <= j < r@.len() implies r.deep_view()[j] == v.deep_view().take(
                i as int + 1,
            )[j] by {
                if j < i as int {
                    assert(r@[j] == rv0[j]);
                    assert(rv0[j].deep_view() == v.deep_view().take(i as int)[j]);
                } else {
                    assert(r@[j] == ee);
                    assert(ee.deep_view() == v@[i as int].deep_view());
                }
            }
            assert(r.deep_view() =~= v.deep_view().take(i as int + 1));
        }
        i = i + 1;
    }
    proof {
        assert(v.deep_view().take(v.len() as int) =~= v.deep_view());
    }
    r
}

fn clone_consideration_items(v: &Vec<ConsiderationItem>) -> (r: Vec<ConsiderationItem>)
    ensures
        r.deep_view() == v.deep_view(),
{
    let mut r: Vec<ConsiderationItem> = Vec::new();
    let mut i: usize = 0;
    while i < v.len()
        invariant
            i <= v.len(),
            r.deep_view() =~= v.deep_view().take(i as int),
        decreases v.len() - i,
    {
        let ghost rv0 = r@;
        proof {
            assert(r.deep_view().len() == i as int);
            assert(rv0.len() == i as int);
        }
        let elem = v[i].clone();
        let ghost ee = elem;
        r.push(elem);
        proof {
            assert(r@ == rv0.push(ee));
            assert forall|j: int| 0 <= j < r@.len() implies r.deep_view()[j] == v.deep_view().take(
                i as int + 1,
            )[j] by {
                if j < i as int {
                    assert(r@[j] == rv0[j]);
                    assert(rv0[j].deep_view() == v.deep_view().take(i as int)[j]);
                } else {
                    assert(r@[j] == ee);
                    assert(ee.deep_view() == v@[i as int].deep_view());
                }
            }
            assert(r.deep_view() =~= v.deep_view().take(i as int + 1));
        }
        i = i + 1;
    }
    proof {
        assert(v.deep_view().take(v.len() as int) =~= v.deep_view());
    }
    r
}

impl Order {
    /// Whether this order's end time has passed in block `block_info`.
    pub fn is_expired(&self, block_info: &BlockInfo) -> (r: bool)
        ensures
            r == order_expired(self.deep_view(), *block_info),
    {
        match &self.end_time {
            Some(time) => time.is_expired(block_info),
            None => false,
        }
    }
}

/// How a listing is priced: a fixed price in a payment asset, or a standing
/// offer priced in an NFT. Only fixed-price listings are settled.
#[allow(inconsistent_fields)]
pub enum AuctionConfig {
    FixedPrice {
        price: PaymentAsset,
        start_time: Option<Expiration>,
        end_time: Option<Expiration>,
    },
    OfferPrice { price: NftAsset, start_time: Option<Expiration>, end_time: Option<Expiration> },
}

/// Mathematical image of [`AuctionConfig`].
#[verifier::ext_equal]
#[allow(inconsistent_fields)]
pub enum AuctionConfigV {
    FixedPrice {
        price: PaymentAssetV,
        start_time: Option<Expiration>,
        end_time: Option<Expiration>,
    },
    OfferPrice { price: NftAssetV, start_time: Option<Expiration>, end_time: Option<Expiration> },
}

impl DeepView for AuctionConfig {
    type V = AuctionConfigV;

    open spec fn deep_view(&self) -> AuctionConfigV {
        match self {
            AuctionConfig::FixedPrice { price, start_time, end_time } => (AuctionConfigV::FixedPrice {
                price: price.deep_view(),
                start_time: *start_time,
                end_time: *end_time,
            }),
            AuctionConfig::OfferPrice { price, start_time, end_time } => (AuctionConfigV::OfferPrice {
                price: price.deep_view(),
                start_time: *start_time,
                end_time: *end_time,
            }),
        }
    }
}

impl Clone for AuctionConfig {
    fn clone(&self) -> (r: Self)
        ensures
            r.deep_view() == self.deep_view(),
    {
        match self {
            AuctionConfig::FixedPrice { price, start_time, end_time } => (AuctionConfig::FixedPrice {
                price: price.clone(),
                start_time: *start_time,
                end_time: *end_time,
            }),
            AuctionConfig::OfferPrice { price, start_time, end_time } => (AuctionConfig::OfferPrice {
                price: price.clone(),
                start_time: *start_time,
                end_time: *end_time,
            }),
        }
    }
}

/// Whether a time window is well-formed: where both bounds are set and
/// comparable, the start must lie strictly before the end.
pub open spec fn time_window_valid(
    start_time: Option<Expiration>,
    end_time: Option<Expiration>,
) -> bool {
    !(start_time is Some && end_time is Some && expiration_ge(
        start_time->Some_0,
        end_time->Some_0,
    ))
}

/// Whether an auction configuration is valid: the time window must be
/// well-formed, and a fixed price must demand a positive amount.
pub open spec fn auction_config_valid(c: AuctionConfigV) -> bool {
    match c {
        AuctionConfigV::FixedPrice { price, start_time, end_time } => payment_amount(price) > 0
            && time_window_valid(start_time, end_time),
        AuctionConfigV::OfferPrice { start_time, end_time, .. } => time_window_valid(
            start_time,
            end_time,
        ),
    }
}

impl AuctionConfig {
    /// Whether this configuration is valid; `list` rejects invalid ones.
    pub fn is_valid(&self) -> (r: bool)
        ensures
            r == auction_config_valid(self.deep_view()),
    {
        match self {
            AuctionConfig::FixedPrice { price, start_time, end_time } => {
                let amount_ok = match price {
                    PaymentAsset::Native { amount, .. } => *amount > 0,
                    PaymentAsset::Cw20 { amount, .. } => *amount > 0,
                };
                amount_ok && time_window_valid_exec(start_time, end_time)
            },
            AuctionConfig::OfferPrice { start_time, end_time, .. } => {
                time_window_valid_exec(start_time, end_time)
            },
        }
    }
}

pub(crate) fn time_window_valid_exec(start_time: &Option<Expiration>, end_time: &Option<Expiration>) -> (r:
    bool)
    ensures
        r == time_window_valid(*start_time, *end_time),
{
    match (start_time, end_time) {
        (Some(s), Some(e)) => !s.ge(e),
        _ => true,
    }
}

/// Process-wide configuration: the admin owner and the code id used to spawn
/// new collections.
pub struct Config {
    pub owner: String,
    pub collection_code_id: u64,
}

/// Mathematical image of [`Config`].
#[verifier::ext_equal]
pub struct ConfigV {
    pub owner: Seq<char>,
    pub collection_code_id: u64,
}

impl DeepView for Config {
    type V = ConfigV;

    open spec fn deep_view(&self) -> ConfigV {
        ConfigV { owner: self.owner@, collection_code_id: self.collection_code_id }
    }
}

impl Clone for Config {
    fn clone(&self) -> (r: Self)
        ensures
            r.deep_view() == self.deep_view(),
    {
        Config { owner: self.owner.clone(), collection_code_id: self.collection_code_id }
    }
}

/// A page of listings, as returned by the range query.
pub struct ListingsResponse {
    pub listings: Vec<Order>,
}

impl DeepView for ListingsResponse {
    type V = Seq<OrderV>;

    open spec fn deep_view(&self) -> Seq<OrderV> {
        self.listings.deep_view()
    }
}

} // verus!
