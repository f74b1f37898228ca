//! The marketplace state: the listing registry (kept in ascending key order),
//! the admin configuration, the payment-token allow-list and the collection
//! registry. The state is an explicit value passed into every operation; the
//! host persists it transactionally around each call.

use vstd::prelude::*;
use vstd::pervasive::VecAdditionalExecFns;
use crate::util::{seq_dv, lemma_seq_dv_update, lemma_seq_dv_insert, lemma_seq_dv_remove};
use crate::keys::{
    lkey_lt, lkey_lt_exec, chars_lt, str_lt, lemma_chars_lt_irrefl, lemma_lkey_lt_irrefl,
    lemma_lkey_lt_connected, lemma_lkey_lt_trans,
};
use crate::structs::{
    Asset, Config, ConfigV, Order, OrderV, OrderType, ItemType, AssetV, NftAssetV,
    ConsiderationItemV, OfferItemV, order_key, time_window_valid,
};

verus! {

/// The listings stand in strictly ascending key order; in particular every
/// key occurs at most once.
pub open spec fn listings_ordered(l: Seq<OrderV>) -> bool {
    forall|i: int, j: int|
        #![trigger order_key(l[i]), order_key(l[j])]
        0 <= i < j < l.len() ==> lkey_lt(order_key(l[i]), order_key(l[j]))
}

/// Whether some listing with key `k` is present.
pub open spec fn has_listing(l: Seq<OrderV>, k: (Seq<char>, Seq<char>)) -> bool {
    exists|i: int| 0 <= i < l.len() && order_key(#[trigger] l[i]) == k
}

/// The position of the listing with key `k`, where one exists.
pub open spec fn listing_index(l: Seq<OrderV>, k: (Seq<char>, Seq<char>)) -> int {
    choose|i: int| 0 <= i < l.len() && order_key(#[trigger] l[i]) == k
}

/// The listing stored under key `k`, if any.
pub open spec fn lookup_listing(l: Seq<OrderV>, k: (Seq<char>, Seq<char>)) -> Option<OrderV> {
    if has_listing(l, k) {
        Some(l[listing_index(l, k)])
    } else {
        None
    }
}

/// The single consideration item of a listing: a positive fixed-price demand
/// in a payment asset, owed to the listing's owner.
pub open spec fn consideration_wf(c: ConsiderationItemV, owner: Seq<char>) -> bool {
    &&& c.recipient == owner
    &&& match c.item {
        AssetV::Native(na) => c.item_type == ItemType::NATIVE && c.start_amount == na.amount
            && c.end_amount == na.amount && na.amount > 0,
        AssetV::Cw20(ca) => c.item_type == ItemType::CW20 && c.start_amount == ca.amount
            && c.end_amount == ca.amount && ca.amount > 0,
        AssetV::Nft(_) => false,
    }
}

/// The invariant of every stored listing: it offers exactly the NFT named by
/// its key, demands exactly one payment asset for its owner, and carries a
/// valid time window.
pub open spec fn listing_wf(o: OrderV) -> bool {
    &&& o.order_type == OrderType::LISTING
    &&& o.owner == o.order_id.0
    &&& o.offer.len() == 1
    &&& o.offer[0] == (OfferItemV {
        item_type: ItemType::CW721,
        item: AssetV::Nft(
            NftAssetV { contract_address: o.order_id.1, token_id: Some(o.order_id.2) },
        ),
        start_amount: 1,
        end_amount: 1,
    })
    &&& o.consideration.len() == 1
    &&& consideration_wf(o.consideration[0], o.owner)
    &&& time_window_valid(o.start_time, o.end_time)
}

/// The registry invariant: ordered keys and well-formed entries.
pub open spec fn listings_wf(l: Seq<OrderV>) -> bool {
    &&& listings_ordered(l)
    &&& forall|i: int| 0 <= i < l.len() ==> listing_wf(#[trigger] l[i])
}

/// Association from collection address to its authorized minter, with unique
/// keys.
pub open spec fn assoc_keys_unique(m: Seq<(Seq<char>, Seq<char>)>) -> bool {
    forall|i: int, j: int| #![trigger m[i], m[j]] 0 <= i < j < m.len() ==> m[i].0 != m[j].0
}

/// Pending collection-spawn requests, keyed by reply id, with unique keys.
pub open spec fn pending_keys_unique(p: Seq<(u64, Seq<char>)>) -> bool {
    forall|i: int, j: int| #![trigger p[i], p[j]] 0 <= i < j < p.len() ==> p[i].0 != p[j].0
}

/// The allow-list holds no duplicates.
pub open spec fn tokens_unique(a: Seq<Seq<char>>) -> bool {
    forall|i: int, j: int| #![trigger a[i], a[j]] 0 <= i < j < a.len() ==> a[i] != a[j]
}

/// Mathematical image of [`MarketState`].
#[verifier::ext_equal]
pub struct StateV {
    pub config: ConfigV,
    pub listings: Seq<OrderV>,
    pub allowed_tokens: Seq<Seq<char>>,
    pub collections: Seq<(Seq<char>, Seq<char>)>,
    pub pending_collections: Seq<(u64, Seq<char>)>,
    pub collection_id: u64,
}

/// The state invariant, established at instantiation and preserved by every
/// operation.
pub open spec fn state_wf(s: StateV) -> bool {
    &&& listings_wf(s.listings)
    &&& assoc_keys_unique(s.collections)
    &&& pending_keys_unique(s.pending_collections)
    &&& tokens_unique(s.allowed_tokens)
}

/// Whether `m` has an entry under key `k`.
pub open spec fn assoc_has(m: Seq<(Seq<char>, Seq<char>)>, k: Seq<char>) -> bool {
    exists|i: int| 0 <= i < m.len() && (#[trigger] m[i]).0 == k
}

/// The position of the entry under key `k`, where one exists.
pub open spec fn assoc_index(m: Seq<(Seq<char>, Seq<char>)>, k: Seq<char>) -> int {
    choose|i: int| 0 <= i < m.len() && (#[trigger] m[i]).0 == k
}

/// The value stored in `m` under key `k`, if any.
pub open spec fn assoc_get(m: Seq<(Seq<char>, Seq<char>)>, k: Seq<char>) -> Option<Seq<char>> {
    if assoc_has(m, k) {
        Some(m[assoc_index(m, k)].1)
    } else {
        None
    }
}

/// Whether a pending request exists under reply id `id`.
pub open spec fn pending_has(p: Seq<(u64, Seq<char>)>, id: u64) -> bool {
    exists|i: int| 0 <= i < p.len() && (#[trigger] p[i]).0 == id
}

/// The position of the pending request under reply id `id`, where one exists.
pub open spec fn pending_index(p: Seq<(u64, Seq<char>)>, id: u64) -> int {
    choose|i: int| 0 <= i < p.len() && (#[trigger] p[i]).0 == id
}

/// The requester recorded for reply id `id`, if any.
pub open spec fn pending_get(p: Seq<(u64, Seq<char>)>, id: u64) -> Option<Seq<char>> {
    if pending_has(p, id) {
        Some(p[pending_index(p, id)].1)
    } else {
        None
    }
}

/// Where position `i` holds key `k`, the association lookup returns exactly
/// that entry's value.
pub proof fn lemma_assoc_at(m: Seq<(Seq<char>, Seq<char>)>, k: Seq<char>, i: int)
    requires
        assoc_keys_unique(m),
        0 <= i < m.len(),
        m[i].0 == k,
    ensures
        assoc_get(m, k) == Some(m[i].1),
        assoc_index(m, k) == i,
{
    assert(assoc_has(m, k));
    let j = assoc_index(m, k);
    assert(m[j].0 == k);
    if j != i {
        assert(m[i].0 != m[j].0);
    }
}

/// Where position `i` holds id `id`, the pending lookup returns exactly that
/// entry's value.
pub proof fn lemma_pending_at(p: Seq<(u64, Seq<char>)>, id: u64, i: int)
    requires
        pending_keys_unique(p),
        0 <= i < p.len(),
        p[i].0 == id,
    ensures
        pending_get(p, id) == Some(p[i].1),
        pending_index(p, id) == i,
{
    assert(pending_has(p, id));
    let j = pending_index(p, id);
    assert(p[j].0 == id);
    if j != i {
        assert(p[i].0 != p[j].0);
    }
}

/// Whether a listing belongs to the page of `coll` starting strictly after
/// token `start_after`.
pub open spec fn page_matches(o: OrderV, coll: Seq<char>, start_after: Option<Seq<char>>) -> bool {
    o.order_id.1 == coll && match start_after {
        Some(c) => chars_lt(c, o.order_id.2),
        None => true,
    }
}

/// What a correct page of listings looks like: at most `limit` entries, each
/// a stored listing of the collection lying strictly after the cursor, in
/// ascending token order; every matching listing either appears or (the page
/// being full) lies beyond the page's last entry.
pub open spec fn page_post(
    l: Seq<OrderV>,
    coll: Seq<char>,
    start_after: Option<Seq<char>>,
    limit: int,
    page: Seq<OrderV>,
) -> bool {
    &&& page.len() <= limit
    &&& forall|x: int|
        0 <= x < page.len() ==> page_matches(#[trigger] page[x], coll, start_after)
            && lookup_listing(l, order_key(page[x])) == Some(page[x])
    &&& forall|x: int, y: int|
        0 <= x < y < page.len() ==> chars_lt(
            (#[trigger] page[x]).order_id.2,
            (#[trigger] page[y]).order_id.2,
        )
    &&& forall|j: int|
        0 <= j < l.len() && page_matches(#[trigger] l[j], coll, start_after) ==> (exists|x: int|
            0 <= x < page.len() && page[x] == l[j]) || (page.len() == limit && (limit == 0
            || chars_lt(page[limit - 1].order_id.2, l[j].order_id.2)))
}

/// A plain image of the whole state, for the host to persist and hand back.
/// [`MarketState::snapshot`] produces it; [`MarketState::restore`] validates
/// it on the way back in, so that no malformed host data can enter the
/// engine.
pub struct StateSnapshot {
    pub config: Config,
    pub listings: Vec<Order>,
    pub allowed_tokens: Vec<String>,
    pub collections: Vec<(String, String)>,
    pub pending_collections: Vec<(u64, String)>,
    pub collection_id: u64,
}

impl DeepView for StateSnapshot {
    type V = StateV;

    open spec fn deep_view(&self) -> StateV {
        StateV {
            config: self.config.deep_view(),
            listings: self.listings.deep_view(),
            allowed_tokens: self.allowed_tokens.deep_view(),
            collections: self.collections.deep_view(),
            pending_collections: self.pending_collections.deep_view(),
            collection_id: self.collection_id,
        }
    }
}

/// The whole marketplace state.
pub struct MarketState {
    config: Config,
    listings: Vec<Order>,
    allowed_tokens: Vec<String>,
    collections: Vec<(String, String)>,
    pending_collections: Vec<(u64, String)>,
    collection_id: u64,
}

impl View for MarketState {
    type V = StateV;

    closed spec fn view(&self) -> StateV {
        StateV {
            config: self.config.deep_view(),
            listings: self.listings.deep_view(),
            allowed_tokens: self.allowed_tokens.deep_view(),
            collections: self.collections.deep_view(),
            pending_collections: self.pending_collections.deep_view(),
            collection_id: self.collection_id,
        }
    }
}

/// In an ordered registry each key names at most one position.
pub proof fn lemma_ordered_unique(l: Seq<OrderV>)
    requires
        listings_ordered(l),
    ensures
        forall|i: int, j: int|
            #![trigger order_key(l[i]), order_key(l[j])]
            0 <= i < l.len() && 0 <= j < l.len() && i != j ==> order_key(l[i]) != order_key(l[j]),
{
    assert forall|i: int, j: int|
        #![trigger order_key(l[i]), order_key(l[j])]
        0 <= i < l.len() && 0 <= j < l.len() && i != j implies order_key(l[i]) != order_key(
        l[j],
    ) by {
        if order_key(l[i]) == order_key(l[j]) {
            lemma_lkey_lt_irrefl(order_key(l[i]));
        }
    }
}

/// Where position `i` holds key `k`, the lookup returns exactly that entry.
pub proof fn lemma_lookup_at(l: Seq<OrderV>, k: (Seq<char>, Seq<char>), i: int)
    requires
        listings_ordered(l),
        0 <= i < l.len(),
        order_key(l[i]) == k,
    ensures
        lookup_listing(l, k) == Some(l[i]),
        listing_index(l, k) == i,
{
    assert(has_listing(l, k));
    let j = listing_index(l, k);
    lemma_ordered_unique(l);
    assert(j == i);
}

proof fn lemma_update_ordered(l: Seq<OrderV>, o: OrderV, i: int)
    requires
        listings_ordered(l),
        0 <= i < l.len(),
        order_key(o) == order_key(l[i]),
    ensures
        listings_ordered(l.update(i, o)),
{
    let n = l.update(i, o);
    assert forall|a: int, b: int|
        #![trigger order_key(n[a]), order_key(n[b])]
        0 <= a < b < n.len() implies lkey_lt(order_key(n[a]), order_key(n[b])) by {
        assert(lkey_lt(order_key(l[a]), order_key(l[b])));
    }
}

proof fn lemma_insert_ordered(l: Seq<OrderV>, o: OrderV, i: int)
    requires
        listings_ordered(l),
        0 <= i <= l.len(),
        forall|j: int| 0 <= j < i ==> lkey_lt(order_key(#[trigger] l[j]), order_key(o)),
        forall|j: int| i <= j < l.len() ==> lkey_lt(order_key(o), order_key(#[trigger] l[j])),
    ensures
        listings_ordered(l.insert(i, o)),
{
    let n = l.insert(i, o);
    l.insert_ensures(i, o);
    assert forall|a: int, b: int|
        #![trigger order_key(n[a]), order_key(n[b])]
        0 <= a < b < n.len() implies lkey_lt(order_key(n[a]), order_key(n[b])) by {
        if b < i {
            assert(n[a] == l[a] && n[b] == l[b]);
        } else if a < i && b == i {
            assert(n[a] == l[a] && n[b] == o);
        } else if a < i && b > i {
            assert(n[a] == l[a] && n[b] == l[b - 1]);
            assert(lkey_lt(order_key(l[a]), order_key(o)));
            assert(lkey_lt(order_key(o), order_key(l[b - 1])));
            lemma_lkey_lt_trans(order_key(l[a]), order_key(o), order_key(l[b - 1]));
        } else if a == i {
            assert(n[a] == o && n[b] == l[b - 1]);
        } else {
            assert(n[a] == l[a - 1] && n[b] == l[b - 1]);
        }
    }
}

proof fn lemma_remove_ordered(l: Seq<OrderV>, i: int)
    requires
        listings_ordered(l),
        0 <= i < l.len(),
    ensures
        listings_ordered(l.remove(i)),
{
    let n = l.remove(i);
    l.remove_ensures(i);
    assert forall|a: int, b: int|
        #![trigger order_key(n[a]), order_key(n[b])]
        0 <= a < b < n.len() implies lkey_lt(order_key(n[a]), order_key(n[b])) by {
        let a2 = if a < i {
            a
        } else {
            a + 1
        };
        let b2 = if b < i {
            b
        } else {
            b + 1
        };
        assert(n[a] == l[a2] && n[b] == l[b2]);
        assert(lkey_lt(order_key(l[a2]), order_key(l[b2])));
    }
}

proof fn lemma_update_lookup_frame(
    l: Seq<OrderV>,
    o: OrderV,
    i: int,
    k2: (Seq<char>, Seq<char>),
)
    requires
        listings_ordered(l),
        0 <= i < l.len(),
        order_key(o) == order_key(l[i]),
        k2 != order_key(o),
    ensures
        lookup_listing(l.update(i, o), k2) == lookup_listing(l, k2),
{
    let n = l.update(i, o);
    lemma_update_ordered(l, o, i);
    if has_listing(l, k2) {
        let j = listing_index(l, k2);
        assert(j != i);
        assert(n[j] == l[j]);
        lemma_lookup_at(n, k2, j);
        lemma_lookup_at(l, k2, j);
    } else {
        if has_listing(n, k2) {
            let j = listing_index(n, k2);
            assert(j != i);
            assert(n[j] == l[j]);
            assert(has_listing(l, k2));
        }
    }
}

proof fn lemma_insert_lookup_frame(
    l: Seq<OrderV>,
    o: OrderV,
    i: int,
    k2: (Seq<char>, Seq<char>),
)
    requires
        listings_ordered(l),
        listings_ordered(l.insert(i, o)),
        0 <= i <= l.len(),
        k2 != order_key(o),
    ensures
        lookup_listing(l.insert(i, o), k2) == lookup_listing(l, k2),
{
    let n = l.insert(i, o);
    l.insert_ensures(i, o);
    if has_listing(l, k2) {
        let j = listing_index(l, k2);
        let j2 = if j < i {
            j
        } else {
            j + 1
        };
        assert(n[j2] == l[j]);
        lemma_lookup_at(n, k2, j2);
        lemma_lookup_at(l, k2, j);
    } else {
        if has_listing(n, k2) {
            let j2 = listing_index(n, k2);
            assert(order_key(n[j2]) == k2);
            assert(j2 != i);
            let j = if j2 < i {
                j2
            } else {
                j2 - 1
            };
            assert(n[j2] == l[j]);
            assert(has_listing(l, k2));
        }
    }
}

proof fn lemma_remove_lookup_frame(l: Seq<OrderV>, i: int, k2: (Seq<char>, Seq<char>))
    requires
        listings_ordered(l),
        0 <= i < l.len(),
        k2 != order_key(l[i]),
    ensures
        lookup_listing(l.remove(i), k2) == lookup_listing(l, k2),
{
    let n = l.remove(i);
    l.remove_ensures(i);
    lemma_remove_ordered(l, i);
    if has_listing(l, k2) {
        let j = listing_index(l, k2);
        assert(j != i);
        let j2 = if j < i {
            j
        } else {
            j - 1
        };
        assert(n[j2] == l[j]);
        lemma_lookup_at(n, k2, j2);
        lemma_lookup_at(l, k2, j);
    } else {
        if has_listing(n, k2) {
            let j2 = listing_index(n, k2);
            let j = if j2 < i {
                j2
            } else {
                j2 + 1
            };
            assert(n[j2] == l[j]);
            assert(has_listing(l, k2));
        }
    }
}

impl MarketState {
    /// A fresh state: the given configuration and nothing listed, allowed or
    /// registered.
    pub fn new(config: Config) -> (r: MarketState)
        ensures
            r@ == (StateV {
                config: config.deep_view(),
                listings: Seq::empty(),
                allowed_tokens: Seq::empty(),
                collections: Seq::empty(),
                pending_collections: Seq::empty(),
                collection_id: 0,
            }),
            state_wf(r@),
    {
        let r = MarketState {
            config,
            listings: Vec::new(),
            allowed_tokens: Vec::new(),
            collections: Vec::new(),
            pending_collections: Vec::new(),
            collection_id: 0,
        };
        proof {
            assert(r@.listings =~= Seq::<OrderV>::empty());
            assert(r@.allowed_tokens =~= Seq::<Seq<char>>::empty());
            assert(r@.collections =~= Seq::<(Seq<char>, Seq<char>)>::empty());
            assert(r@.pending_collections =~= Seq::<(u64, Seq<char>)>::empty());
            assert(r@ =~= (StateV {
                config: config.deep_view(),
                listings: Seq::empty(),
                allowed_tokens: Seq::empty(),
                collections: Seq::empty(),
                pending_collections: Seq::empty(),
                collection_id: 0,
            }));
        }
        r
    }

    /// The admin configuration.
    pub fn config(&self) -> (r: &Config)
        ensures
            r.deep_view() == self@.config,
    {
        &self.config
    }

    /// The current collection counter.
    pub fn collection_id(&self) -> (r: u64)
        ensures
            r == self@.collection_id,
    {
        self.collection_id
    }

    /// The listing stored under `(contract_address, token_id)`, if any.
    pub fn get_listing(&self, contract_address: &String, token_id: &String) -> (r: Option<&Order>)
        requires
            state_wf(self@),
        ensures
            match r {
                Some(o) => lookup_listing(self@.listings, (contract_address@, token_id@)) == Some(
                    o.deep_view(),
                ),
                None => lookup_listing(self@.listings, (contract_address@, token_id@)) is None,
            },
    {
        let ghost k = (contract_address@, token_id@);
        let n = self.listings.len();
        let mut i: usize = 0;
        while i < n
            invariant
                n == self.listings.len(),
                i <= n,
                forall|j: int| 0 <= j < i ==> order_key(#[trigger] self@.listings[j]) != k,
                state_wf(self@),
                k == (contract_address@, token_id@),
            decreases n - i,
        {
            let o = &self.listings[i];
            if o.order_id.1 == *contract_address && o.order_id.2 == *token_id {
                proof {
                    assert(order_key(self@.listings[i as int]) == k);
                    lemma_lookup_at(self@.listings, k, i as int);
                }
                return Some(o);
            }
            proof {
                assert(order_key(self@.listings[i as int]) != k);
            }
            i = i + 1;
        }
        proof {
            assert(!has_listing(self@.listings, k));
        }
        None
    }

    /// Stores `order` under its key, overwriting any previous listing there
    /// (a seller re-lists to update the price or time window).
    pub fn put_listing(&mut self, order: Order)
        requires
            state_wf(old(self)@),
            listing_wf(order.deep_view()),
        ensures
            state_wf(final(self)@),
            final(self)@.config == old(self)@.config,
            final(self)@.allowed_tokens == old(self)@.allowed_tokens,
            final(self)@.collections == old(self)@.collections,
            final(self)@.pending_collections == old(self)@.pending_collections,
            final(self)@.collection_id == old(self)@.collection_id,
            lookup_listing(final(self)@.listings, order_key(order.deep_view())) == Some(
                order.deep_view(),
            ),
            forall|k2: (Seq<char>, Seq<char>)|
                k2 != order_key(order.deep_view()) ==> #[trigger] lookup_listing(
                    final(self)@.listings,
                    k2,
                ) == lookup_listing(old(self)@.listings, k2),
            final(self)@.listings.len() == if has_listing(
                old(self)@.listings,
                order_key(order.deep_view()),
            ) {
                old(self)@.listings.len()
            } else {
                old(self)@.listings.len() + 1
            },
    {
        let ghost k = order_key(order.deep_view());
        let ghost lv0 = self@.listings;
        let n = self.listings.len();
        let mut i: usize = 0;
        while i < n && lkey_lt_exec(
            &self.listings[i].order_id.1,
            &self.listings[i].order_id.2,
            &order.order_id.1,
            &order.order_id.2,
        )
            invariant
                self@ == old(self)@,
                lv0 == self@.listings,
                k == order_key(order.deep_view()),
                n == self.listings.len(),
                i <= n,
                state_wf(self@),
                listing_wf(order.deep_view()),
                forall|j: int| 0 <= j < i ==> lkey_lt(order_key(#[trigger] lv0[j]), k),
            decreases n - i,
        {
            proof {
                assert(order_key(lv0[i as int]) == (
                    self.listings@[i as int].order_id.1@,
                    self.listings@[i as int].order_id.2@,
                ));
            }
            i = i + 1;
        }
        let ghost ev0 = self.listings@;
        let ghost og = order.deep_view();
        proof {
            assert(seq_dv(ev0) =~= lv0);
        }
        if i < n && self.listings[i].order_id.1 == order.order_id.1 && self.listings[i].order_id.2
            == order.order_id.2 {
            proof {
                assert(order_key(lv0[i as int]) == k);
                assert(has_listing(lv0, k)) by {
                    assert(order_key(lv0[i as int]) == k);
                }
            }
            self.listings.set(i, order);
            proof {
                assert(self.listings@ == ev0.update(i as int, self.listings@[i as int]));
                lemma_seq_dv_update(ev0, i as int, self.listings@[i as int]);
                assert(self.listings.deep_view() =~= seq_dv(self.listings@));
                assert(self@.listings == lv0.update(i as int, og));
                lemma_update_ordered(lv0, og, i as int);
                lemma_lookup_at(self@.listings, k, i as int);
                assert forall|k2: (Seq<char>, Seq<char>)| k2 != k implies #[trigger] lookup_listing(
                    self@.listings,
                    k2,
                ) == lookup_listing(lv0, k2) by {
                    lemma_update_lookup_frame(lv0, og, i as int, k2);
                }
                assert forall|j: int| 0 <= j < self@.listings.len() implies listing_wf(
                    #[trigger] self@.listings[j],
                ) by {
                    if j != i as int {
                        assert(self@.listings[j] == lv0[j]);
                    }
                }
            }
        } else {
            proof {
                assert forall|j: int| i as int <= j < lv0.len() implies lkey_lt(
                    k,
                    order_key(#[trigger] lv0[j]),
                ) by {
                    let ki = order_key(lv0[i as int]);
                    assert(!lkey_lt(ki, k));
                    if ki == k {
                        assert(order_key(lv0[i as int]) == (
                            self.listings@[i as int].order_id.1@,
                            self.listings@[i as int].order_id.2@,
                        ));
                        assert(false);
                    }
                    if !lkey_lt(k, ki) {
                        lemma_lkey_lt_connected(ki, k);
                        assert(false);
                    }
                    if j > i as int {
                        assert(lkey_lt(ki, order_key(lv0[j])));
                        lemma_lkey_lt_trans(k, ki, order_key(lv0[j]));
                    }
                }
                assert(!has_listing(lv0, k)) by {
                    if has_listing(lv0, k) {
                        let j = listing_index(lv0, k);
                        if j < i as int {
                            assert(lkey_lt(order_key(lv0[j]), k));
                            lemma_lkey_lt_irrefl(k);
                        } else {
                            assert(lkey_lt(k, order_key(lv0[j])));
                            lemma_lkey_lt_irrefl(k);
                        }
                    }
                }
            }
            self.listings.insert(i, order);
            proof {
                assert(self.listings@ == ev0.insert(i as int, self.listings@[i as int]));
                lemma_seq_dv_insert(ev0, i as int, self.listings@[i as int]);
                assert(self.listings.deep_view() =~= seq_dv(self.listings@));
                assert(self@.listings == lv0.insert(i as int, og));
                lemma_insert_ordered(lv0, og, i as int);
                lv0.insert_ensures(i as int, og);
                lemma_lookup_at(self@.listings, k, i as int);
                assert forall|k2: (Seq<char>, Seq<char>)| k2 != k implies #[trigger] lookup_listing(
                    self@.listings,
                    k2,
                ) == lookup_listing(lv0, k2) by {
                    lemma_insert_lookup_frame(lv0, og, i as int, k2);
                }
                assert forall|j: int| 0 <= j < self@.listings.len() implies listing_wf(
                    #[trigger] self@.listings[j],
                ) by {
                    if j < i as int {
                        assert(self@.listings[j] == lv0[j]);
                    } else if j > i as int {
                        assert(self@.listings[j] == lv0[j - 1]);
                    }
                }
            }
        }
    }

    /// Removes the listing under `(contract_address, token_id)`, if any; the
    /// registry is unchanged where none exists.
    pub fn remove_listing(&mut self, contract_address: &String, token_id: &String)
        requires
            state_wf(old(self)@),
        ensures
            state_wf(final(self)@),
            final(self)@.config == old(self)@.config,
            final(self)@.allowed_tokens == old(self)@.allowed_tokens,
            final(self)@.collections == old(self)@.collections,
            final(self)@.pending_collections == old(self)@.pending_collections,
            final(self)@.collection_id == old(self)@.collection_id,
            lookup_listing(final(self)@.listings, (contract_address@, token_id@)) is None,
            forall|k2: (Seq<char>, Seq<char>)|
                k2 != (contract_address@, token_id@) ==> #[trigger] lookup_listing(
                    final(self)@.listings,
                    k2,
                ) == lookup_listing(old(self)@.listings, k2),
            final(self)@.listings.len() == if has_listing(
                old(self)@.listings,
                (contract_address@, token_id@),
            ) {
                (old(self)@.listings.len() - 1) as nat
            } else {
                old(self)@.listings.len()
            },
            !has_listing(old(self)@.listings, (contract_address@, token_id@)) ==> final(self)@
                == old(self)@,
    {
        let ghost k = (contract_address@, token_id@);
        let ghost lv0 = self@.listings;
        let n = self.listings.len();
        let mut i: usize = 0;
        while i < n
            invariant
                self@ == old(self)@,
                lv0 == self@.listings,
                k == (contract_address@, token_id@),
                n == self.listings.len(),
                i <= n,
                state_wf(self@),
                forall|j: int| 0 <= j < i ==> order_key(#[trigger] lv0[j]) != k,
            decreases n - i,
        {
            let hit = self.listings[i].order_id.1 == *contract_address && self.listings[i]
                .order_id.2 == *token_id;
            proof {
                assert(order_key(lv0[i as int]) == (
                    self.listings@[i as int].order_id.1@,
                    self.listings@[i as int].order_id.2@,
                ));
            }
            if hit {
                let ghost ev0 = self.listings@;
                proof {
                    assert(seq_dv(ev0) =~= lv0);
                    assert(order_key(lv0[i as int]) == k);
                }
                let _removed = self.listings.remove(i);
                proof {
                    assert(self.listings@ == ev0.remove(i as int));
                    lemma_seq_dv_remove(ev0, i as int);
                    assert(self.listings.deep_view() =~= seq_dv(self.listings@));
                    assert(self@.listings == lv0.remove(i as int));
                    lv0.remove_ensures(i as int);
                    lemma_remove_ordered(lv0, i as int);
                    lemma_ordered_unique(lv0);
                    assert(!has_listing(self@.listings, k)) by {
                        if has_listing(self@.listings, k) {
                            let j2 = listing_index(self@.listings, k);
                            let j = if j2 < i as int {
                                j2
                            } else {
                                j2 + 1
                            };
                            assert(self@.listings[j2] == lv0[j]);
                            assert(order_key(lv0[j]) == k && order_key(lv0[i as int]) == k && j
                                != i as int);
                        }
                    }
                    assert forall|k2: (Seq<char>, Seq<char>)| k2 != k implies
                        #[trigger] lookup_listing(self@.listings, k2) == lookup_listing(
                        lv0,
                        k2,
                    ) by {
                        lemma_remove_lookup_frame(lv0, i as int, k2);
                    }
                    assert(has_listing(lv0, k)) by {
                        assert(order_key(lv0[i as int]) == k);
                    }
                    assert forall|j: int| 0 <= j < self@.listings.len() implies listing_wf(
                        #[trigger] self@.listings[j],
                    ) by {
                        let j2 = if j < i as int {
                            j
                        } else {
                            j + 1
                        };
                        assert(self@.listings[j] == lv0[j2]);
                    }
                }
                return ;
            }
            i = i + 1;
        }
        proof {
            assert(!has_listing(lv0, k));
        }
    }

    /// Whether `contract_address` is on the payment-token allow-list.
    pub fn is_token_allowed(&self, contract_address: &String) -> (r: bool)
        ensures
            r == self@.allowed_tokens.contains(contract_address@),
    {
        let n = self.allowed_tokens.len();
        let mut i: usize = 0;
        while i < n
            invariant
                n == self.allowed_tokens.len(),
                i <= n,
                forall|j: int| 0 <= j < i ==> #[trigger] self@.allowed_tokens[j]
                    != contract_address@,
            decreases n - i,
        {
            if self.allowed_tokens[i] == *contract_address {
                proof {
                    assert(self@.allowed_tokens[i as int] == contract_address@);
                }
                return true;
            }
            proof {
                assert(self@.allowed_tokens[i as int] == self.allowed_tokens@[i as int]@);
            }
            i = i + 1;
        }
        proof {
            if self@.allowed_tokens.contains(contract_address@) {
                let j = self@.allowed_tokens.index_of(contract_address@);
            }
        }
        false
    }

    /// Admits `contract_address` as a payment token; adding an address twice
    /// leaves the allow-list unchanged.
    pub fn allow_token(&mut self, contract_address: String)
        requires
            state_wf(old(self)@),
        ensures
            state_wf(final(self)@),
            final(self)@ == (StateV {
                allowed_tokens: if old(self)@.allowed_tokens.contains(contract_address@) {
                    old(self)@.allowed_tokens
                } else {
                    old(self)@.allowed_tokens.push(contract_address@)
                },
                ..old(self)@
            }),
    {
        if !self.is_token_allowed(&contract_address) {
            let ghost a0 = self@.allowed_tokens;
            crate::util::push_dv(&mut self.allowed_tokens, contract_address);
            proof {
                assert(self@ =~= (StateV { allowed_tokens: a0.push(contract_address@), ..old(
                    self,
                )@ }));
                assert forall|i: int, j: int|
                    #![trigger self@.allowed_tokens[i], self@.allowed_tokens[j]]
                    0 <= i < j < self@.allowed_tokens.len() implies self@.allowed_tokens[i]
                    != self@.allowed_tokens[j] by {
                    if j == self@.allowed_tokens.len() - 1 {
                        assert(!a0.contains(contract_address@));
                        assert(self@.allowed_tokens[i] == a0[i]);
                    } else {
                        assert(self@.allowed_tokens[i] == a0[i]);
                        assert(self@.allowed_tokens[j] == a0[j]);
                    }
                }
            }
        } else {
            proof {
                assert(self@ =~= (StateV {
                    allowed_tokens: old(self)@.allowed_tokens,
                    ..old(self)@
                }));
            }
        }
    }

    /// The authorized minter recorded for a collection, if any.
    pub fn collection_minter(&self, contract_address: &String) -> (r: Option<&String>)
        requires
            state_wf(self@),
        ensures
            match r {
                Some(m) => assoc_get(self@.collections, contract_address@) == Some(m@),
                None => assoc_get(self@.collections, contract_address@) is None,
            },
    {
        let n = self.collections.len();
        let mut i: usize = 0;
        while i < n
            invariant
                n == self.collections.len(),
                i <= n,
                state_wf(self@),
                forall|j: int| 0 <= j < i ==> (#[trigger] self@.collections[j]).0
                    != contract_address@,
            decreases n - i,
        {
            let p = &self.collections[i];
            proof {
                assert(self@.collections[i as int] == (p.0@, p.1@));
            }
            if p.0 == *contract_address {
                proof {
                    lemma_assoc_at(self@.collections, contract_address@, i as int);
                }
                return Some(&p.1);
            }
            i = i + 1;
        }
        proof {
            assert(!assoc_has(self@.collections, contract_address@));
        }
        None
    }

    /// Records (or overwrites) the authorized minter of a collection.
    pub fn register_collection(&mut self, contract_address: String, minter: String)
        requires
            state_wf(old(self)@),
        ensures
            state_wf(final(self)@),
            final(self)@.config == old(self)@.config,
            final(self)@.listings == old(self)@.listings,
            final(self)@.allowed_tokens == old(self)@.allowed_tokens,
            final(self)@.pending_collections == old(self)@.pending_collections,
            final(self)@.collection_id == old(self)@.collection_id,
            assoc_get(final(self)@.collections, contract_address@) == Some(minter@),
            forall|k2: Seq<char>|
                k2 != contract_address@ ==> #[trigger] assoc_get(final(self)@.collections, k2)
                    == assoc_get(old(self)@.collections, k2),
    {
        let ghost m0 = self@.collections;
        let ghost kv = contract_address@;
        let n = self.collections.len();
        let mut i: usize = 0;
        while i < n
            invariant
                self@ == old(self)@,
                m0 == self@.collections,
                kv == contract_address@,
                n == self.collections.len(),
                i <= n,
                state_wf(self@),
                forall|j: int| 0 <= j < i ==> (#[trigger] m0[j]).0 != kv,
            decreases n - i,
        {
            let hit = self.collections[i].0 == contract_address;
            proof {
                assert(m0[i as int] == (
                    self.collections@[i as int].0@,
                    self.collections@[i as int].1@,
                ));
            }
            if hit {
                let ghost ev0 = self.collections@;
                proof {
                    assert(seq_dv(ev0) =~= m0);
                }
                self.collections.set(i, (contract_address, minter));
                proof {
                    lemma_seq_dv_update(ev0, i as int, self.collections@[i as int]);
                    assert(self.collections.deep_view() =~= seq_dv(self.collections@));
                    assert(self@.collections == m0.update(i as int, (kv, minter@)));
                    assert forall|a: int, b: int|
                        #![trigger self@.collections[a], self@.collections[b]]
                        0 <= a < b < self@.collections.len() implies self@.collections[a].0
                        != self@.collections[b].0 by {
                        assert(m0[a].0 != m0[b].0);
                    }
                    lemma_assoc_at(self@.collections, kv, i as int);
                    assert forall|k2: Seq<char>| k2 != kv implies #[trigger] assoc_get(
                        self@.collections,
                        k2,
                    ) == assoc_get(m0, k2) by {
                        if assoc_has(m0, k2) {
                            let j = assoc_index(m0, k2);
                            assert(j != i as int);
                            assert(self@.collections[j] == m0[j]);
                            lemma_assoc_at(self@.collections, k2, j);
                            lemma_assoc_at(m0, k2, j);
                        } else {
                            if assoc_has(self@.collections, k2) {
                                let j = assoc_index(self@.collections, k2);
                                assert(j != i as int);
                                assert(self@.collections[j] == m0[j]);
                                assert(assoc_has(m0, k2));
                            }
                        }
                    }
                }
                return ;
            }
            i = i + 1;
        }
        let ghost ev0 = self.collections@;
        proof {
            assert(seq_dv(ev0) =~= m0);
            assert(!assoc_has(m0, kv));
        }
        crate::util::push_dv(&mut self.collections, (contract_address, minter));
        proof {
            assert(self@.collections == m0.push((kv, minter@)));
            assert forall|a: int, b: int|
                #![trigger self@.collections[a], self@.collections[b]]
                0 <= a < b < self@.collections.len() implies self@.collections[a].0
                != self@.collections[b].0 by {
                if b == m0.len() {
                    assert(self@.collections[a] == m0[a]);
                    if m0[a].0 == kv {
                        assert(assoc_has(m0, kv));
                    }
                } else {
                    assert(self@.collections[a] == m0[a]);
                    assert(self@.collections[b] == m0[b]);
                }
            }
            lemma_assoc_at(self@.collections, kv, m0.len() as int);
            assert forall|k2: Seq<char>| k2 != kv implies #[trigger] assoc_get(
                self@.collections,
                k2,
            ) == assoc_get(m0, k2) by {
                if assoc_has(m0, k2) {
                    let j = assoc_index(m0, k2);
                    assert(self@.collections[j] == m0[j]);
                    lemma_assoc_at(self@.collections, k2, j);
                    lemma_assoc_at(m0, k2, j);
                } else {
                    if assoc_has(self@.collections, k2) {
                        let j = assoc_index(self@.collections, k2);
                        assert(j != m0.len());
                        assert(self@.collections[j] == m0[j]);
                        assert(assoc_has(m0, k2));
                    }
                }
            }
        }
    }

    /// The requester recorded for a pending collection spawn, if any.
    pub fn pending_requester(&self, reply_id: u64) -> (r: Option<&String>)
        requires
            state_wf(self@),
        ensures
            match r {
                Some(m) => pending_get(self@.pending_collections, reply_id) == Some(m@),
                None => pending_get(self@.pending_collections, reply_id) is None,
            },
    {
        let n = self.pending_collections.len();
        let mut i: usize = 0;
        while i < n
            invariant
                n == self.pending_collections.len(),
                i <= n,
                state_wf(self@),
                forall|j: int| 0 <= j < i ==> (#[trigger] self@.pending_collections[j]).0
                    != reply_id,
            decreases n - i,
        {
            let p = &self.pending_collections[i];
            proof {
                assert(self@.pending_collections[i as int] == (p.0, p.1@));
            }
            if p.0 == reply_id {
                proof {
                    lemma_pending_at(self@.pending_collections, reply_id, i as int);
                }
                return Some(&p.1);
            }
            i = i + 1;
        }
        proof {
            assert(!pending_has(self@.pending_collections, reply_id));
        }
        None
    }

    /// Records (or overwrites) the requester of a pending collection spawn.
    pub fn record_pending(&mut self, reply_id: u64, requester: String)
        requires
            state_wf(old(self)@),
        ensures
            state_wf(final(self)@),
            final(self)@.config == old(self)@.config,
            final(self)@.listings == old(self)@.listings,
            final(self)@.allowed_tokens == old(self)@.allowed_tokens,
            final(self)@.collections == old(self)@.collections,
            final(self)@.collection_id == old(self)@.collection_id,
            pending_get(final(self)@.pending_collections, reply_id) == Some(requester@),
            forall|id2: u64|
                id2 != reply_id ==> #[trigger] pending_get(final(self)@.pending_collections, id2)
                    == pending_get(old(self)@.pending_collections, id2),
    {
        let ghost p0 = self@.pending_collections;
        let n = self.pending_collections.len();
        let mut i: usize = 0;
        while i < n
            invariant
                self@ == old(self)@,
                p0 == self@.pending_collections,
                n == self.pending_collections.len(),
                i <= n,
                state_wf(self@),
                forall|j: int| 0 <= j < i ==> (#[trigger] p0[j]).0 != reply_id,
            decreases n - i,
        {
            let hit = self.pending_collections[i].0 == reply_id;
            proof {
                assert(p0[i as int] == (
                    self.pending_collections@[i as int].0,
                    self.pending_collections@[i as int].1@,
                ));
            }
            if hit {
                let ghost ev0 = self.pending_collections@;
                proof {
                    assert(seq_dv(ev0) =~= p0);
                }
                self.pending_collections.set(i, (reply_id, requester));
                proof {
                    lemma_seq_dv_update(ev0, i as int, self.pending_collections@[i as int]);
                    assert(self.pending_collections.deep_view() =~= seq_dv(
                        self.pending_collections@,
                    ));
                    assert(self@.pending_collections == p0.update(i as int, (reply_id, requester@)));
                    assert forall|a: int, b: int|
                        #![trigger self@.pending_collections[a], self@.pending_collections[b]]
                        0 <= a < b < self@.pending_collections.len() implies
                        self@.pending_collections[a].0 != self@.pending_collections[b].0 by {
                        assert(p0[a].0 != p0[b].0);
                    }
                    lemma_pending_at(self@.pending_collections, reply_id, i as int);
                    assert forall|id2: u64| id2 != reply_id implies #[trigger] pending_get(
                        self@.pending_collections,
                        id2,
                    ) == pending_get(p0, id2) by {
                        if pending_has(p0, id2) {
                            let j = pending_index(p0, id2);
                            assert(j != i as int);
                            assert(self@.pending_collections[j] == p0[j]);
                            lemma_pending_at(self@.pending_collections, id2, j);
                            lemma_pending_at(p0, id2, j);
                        } else {
                            if pending_has(self@.pending_collections, id2) {
                                let j = pending_index(self@.pending_collections, id2);
                                assert(j != i as int);
                                assert(self@.pending_collections[j] == p0[j]);
                                assert(pending_has(p0, id2));
                            }
                        }
                    }
                }
                return ;
            }
            i = i + 1;
        }
        let ghost ev0 = self.pending_collections@;
        proof {
            assert(seq_dv(ev0) =~= p0);
            assert(!pending_has(p0, reply_id));
        }
        crate::util::push_dv(&mut self.pending_collections, (reply_id, requester));
        proof {
            assert(self@.pending_collections == p0.push((reply_id, requester@)));
            assert forall|a: int, b: int|
                #![trigger self@.pending_collections[a], self@.pending_collections[b]]
                0 <= a < b < self@.pending_collections.len() implies self@.pending_collections[a].0
                != self@.pending_collections[b].0 by {
                if b == p0.len() {
                    assert(self@.pending_collections[a] == p0[a]);
                    if p0[a].0 == reply_id {
                        assert(pending_has(p0, reply_id));
                    }
                } else {
                    assert(self@.pending_collections[a] == p0[a]);
                    assert(self@.pending_collections[b] == p0[b]);
                }
            }
            lemma_pending_at(self@.pending_collections, reply_id, p0.len() as int);
            assert forall|id2: u64| id2 != reply_id implies #[trigger] pending_get(
                self@.pending_collections,
                id2,
            ) == pending_get(p0, id2) by {
                if pending_has(p0, id2) {
                    let j = pending_index(p0, id2);
                    assert(self@.pending_collections[j] == p0[j]);
                    lemma_pending_at(self@.pending_collections, id2, j);
                    lemma_pending_at(p0, id2, j);
                } else {
                    if pending_has(self@.pending_collections, id2) {
                        let j = pending_index(self@.pending_collections, id2);
                        assert(j != p0.len());
                        assert(self@.pending_collections[j] == p0[j]);
                        assert(pending_has(p0, id2));
                    }
                }
            }
        }
    }

    /// Drops the pending record under `reply_id`, if any.
    pub fn take_pending(&mut self, reply_id: u64)
        requires
            state_wf(old(self)@),
        ensures
            state_wf(final(self)@),
            final(self)@.config == old(self)@.config,
            final(self)@.listings == old(self)@.listings,
            final(self)@.allowed_tokens == old(self)@.allowed_tokens,
            final(self)@.collections == old(self)@.collections,
            final(self)@.collection_id == old(self)@.collection_id,
            pending_get(final(self)@.pending_collections, reply_id) is None,
            forall|id2: u64|
                id2 != reply_id ==> #[trigger] pending_get(final(self)@.pending_collections, id2)
                    == pending_get(old(self)@.pending_collections, id2),
    {
        let ghost p0 = self@.pending_collections;
        let n = self.pending_collections.len();
        let mut i: usize = 0;
        while i < n
            invariant
                self@ == old(self)@,
                p0 == self@.pending_collections,
                n == self.pending_collections.len(),
                i <= n,
                state_wf(self@),
                forall|j: int| 0 <= j < i ==> (#[trigger] p0[j]).0 != reply_id,
            decreases n - i,
        {
            let hit = self.pending_collections[i].0 == reply_id;
            proof {
                assert(p0[i as int] == (
                    self.pending_collections@[i as int].0,
                    self.pending_collections@[i as int].1@,
                ));
            }
            if hit {
                let ghost ev0 = self.pending_collections@;
                proof {
                    assert(seq_dv(ev0) =~= p0);
                }
                let _removed = self.pending_collections.remove(i);
                proof {
                    lemma_seq_dv_remove(ev0, i as int);
                    assert(self.pending_collections.deep_view() =~= seq_dv(
                        self.pending_collections@,
                    ));
                    assert(self@.pending_collections == p0.remove(i as int));
                    p0.remove_ensures(i as int);
                    let pn = self@.pending_collections;
                    assert forall|a: int, b: int|
                        #![trigger pn[a], pn[b]]
                        0 <= a < b < pn.len() implies pn[a].0 != pn[b].0 by {
                        let a2 = if a < i as int {
                            a
                        } else {
                            a + 1
                        };
                        let b2 = if b < i as int {
                            b
                        } else {
                            b + 1
                        };
                        assert(pn[a] == p0[a2] && pn[b] == p0[b2]);
                        assert(p0[a2].0 != p0[b2].0);
                    }
                    assert(!pending_has(pn, reply_id)) by {
                        if pending_has(pn, reply_id) {
                            let j2 = pending_index(pn, reply_id);
                            let j = if j2 < i as int {
                                j2
                            } else {
                                j2 + 1
                            };
                            assert(pn[j2] == p0[j]);
                            assert(p0[j].0 == reply_id && p0[i as int].0 == reply_id && j
                                != i as int);
                        }
                    }
                    assert forall|id2: u64| id2 != reply_id implies #[trigger] pending_get(
                        pn,
                        id2,
                    ) == pending_get(p0, id2) by {
                        if pending_has(p0, id2) {
                            let j = pending_index(p0, id2);
                            assert(j != i as int);
                            let j2 = if j < i as int {
                                j
                            } else {
                                j - 1
                            };
                            assert(pn[j2] == p0[j]);
                            lemma_pending_at(pn, id2, j2);
                            lemma_pending_at(p0, id2, j);
                        } else {
                            if pending_has(pn, id2) {
                                let j2 = pending_index(pn, id2);
                                let j = if j2 < i as int {
                                    j2
                                } else {
                                    j2 + 1
                                };
                                assert(pn[j2] == p0[j]);
                                assert(pending_has(p0, id2));
                            }
                        }
                    }
                }
                return ;
            }
            i = i + 1;
        }
        proof {
            assert(!pending_has(p0, reply_id));
        }
    }

    /// Returns up to `limit` listings of the collection at `contract_address`
    /// whose token id lies strictly after `start_after`, in ascending token
    /// order: the page begins at the first such listing, and anything left
    /// out beyond a full page lies after the page's last entry.
    pub fn listings_page(
        &self,
        contract_address: &String,
        start_after: &Option<String>,
        limit: usize,
    ) -> (r: Vec<Order>)
        requires
            state_wf(self@),
        ensures
            page_post(
                self@.listings,
                contract_address@,
                start_after.deep_view(),
                limit as int,
                r.deep_view(),
            ),
    {
        let ghost lv = self@.listings;
        let ghost sa = start_after.deep_view();
        let mut out: Vec<Order> = Vec::new();
        let ghost mut src: Seq<int> = Seq::empty();
        let n = self.listings.len();
        let mut i: usize = 0;
        proof {
            assert(out.deep_view() =~= Seq::<OrderV>::empty());
        }
        while i < n && out.len() < limit
            invariant
                n == self.listings.len(),
                lv == self@.listings,
                sa == start_after.deep_view(),
                state_wf(self@),
                i <= n,
                out@.len() <= limit,
                src.len() == out.deep_view().len(),
                forall|x: int| 0 <= x < src.len() ==> 0 <= #[trigger] src[x] < i,
                forall|x: int, y: int| 0 <= x < y < src.len() ==> src[x] < src[y],
                forall|x: int|
                    0 <= x < src.len() ==> #[trigger] out.deep_view()[x] == lv[src[x]],
                forall|x: int|
                    0 <= x < src.len() ==> page_matches(#[trigger] out.deep_view()[x], contract_address@, sa),
                forall|j: int|
                    0 <= j < i && page_matches(#[trigger] lv[j], contract_address@, sa) ==> exists|
                        x: int,
                    | 0 <= x < src.len() && src[x] == j,
            decreases n - i,
        {
            let o = &self.listings[i];
            proof {
                assert(o.deep_view() == lv[i as int]);
            }
            let after_cursor = match start_after {
                Some(c) => str_lt(c.as_str(), o.order_id.2.as_str()),
                None => true,
            };
            if o.order_id.1 == *contract_address && after_cursor {
                proof {
                    assert(page_matches(lv[i as int], contract_address@, sa));
                }
                let ghost dv0 = out.deep_view();
                let ghost ev0 = out@;
                let cl = o.clone();
                let ghost cg = cl;
                out.push(cl);
                proof {
                    assert(out@ == ev0.push(cg));
                    assert forall|x: int| 0 <= x < out@.len() implies out.deep_view()[x]
                        == dv0.push(cg.deep_view())[x] by {
                        if x < ev0.len() {
                            assert(out@[x] == ev0[x]);
                            assert(dv0[x] == ev0[x].deep_view());
                        } else {
                            assert(out@[x] == cg);
                        }
                    }
                    assert(out.deep_view() =~= dv0.push(cg.deep_view()));
                    assert(cg.deep_view() == lv[i as int]);
                    let src0 = src;
                    src = src.push(i as int);
                    assert(src[src.len() - 1] == i as int);
                    assert forall|j: int|
                        0 <= j < i as int + 1 && page_matches(
                            #[trigger] lv[j],
                            contract_address@,
                            sa,
                        ) implies exists|x: int| 0 <= x < src.len() && src[x] == j by {
                        if j < i as int {
                            let x0 = choose|x: int| 0 <= x < src0.len() && src0[x] == j;
                            assert(src[x0] == j);
                        } else {
                            assert(src[src.len() - 1] == j);
                        }
                    }
                }
            } else {
                proof {
                    assert(!page_matches(lv[i as int], contract_address@, sa));
                }
            }
            i = i + 1;
        }
        proof {
            assert forall|x: int, y: int| 0 <= x < y < out.deep_view().len() implies chars_lt(
                out.deep_view()[x].order_id.2,
                out.deep_view()[y].order_id.2,
            ) by {
                let a = src[x];
                let b = src[y];
                assert(out.deep_view()[x] == lv[a] && out.deep_view()[y] == lv[b]);
                assert(lkey_lt(order_key(lv[a]), order_key(lv[b])));
                lemma_chars_lt_irrefl(contract_address@);
            }
            assert forall|x: int| 0 <= x < out.deep_view().len() implies lookup_listing(
                lv,
                order_key(out.deep_view()[x]),
            ) == Some(out.deep_view()[x]) by {
                let a = src[x];
                lemma_lookup_at(lv, order_key(lv[a]), a);
            }
            assert forall|j: int|
                0 <= j < lv.len() && page_matches(#[trigger] lv[j], contract_address@, sa) implies (
            exists|x: int| 0 <= x < out.deep_view().len() && out.deep_view()[x] == lv[j]) || (
            out.deep_view().len() == limit && (limit == 0 || chars_lt(
                out.deep_view()[limit - 1].order_id.2,
                lv[j].order_id.2,
            ))) by {
                if j < i as int {
                    let x = choose|x: int| 0 <= x < src.len() && src[x] == j;
                    assert(out.deep_view()[x] == lv[j]);
                } else {
                    assert(out@.len() == limit);
                    if limit > 0 {
                        let a = src[limit - 1];
                        assert(out.deep_view()[limit - 1] == lv[a]);
                        assert(a < i as int && i as int <= j);
                        assert(lkey_lt(order_key(lv[a]), order_key(lv[j])));
                        lemma_chars_lt_irrefl(contract_address@);
                    }
                }
            }
        }
        out
    }

    /// Advances the collection counter and returns the new id.
    pub fn next_collection_id(&mut self) -> (r: u64)
        requires
            state_wf(old(self)@),
            old(self)@.collection_id < u64::MAX,
        ensures
            state_wf(final(self)@),
            r == old(self)@.collection_id + 1,
            final(self)@ == (StateV { collection_id: r, ..old(self)@ }),
    {
        self.collection_id = self.collection_id + 1;
        proof {
            assert(self@ =~= (StateV { collection_id: self@.collection_id, ..old(self)@ }));
        }
        self.collection_id
    }
}

fn clone_orders(v: &Vec<Order>) -> (r: Vec<Order>)
    ensures
        r.deep_view() == v.deep_view(),
{
    let mut r: Vec<Order> = Vec::new();
    let mut i: usize = 0;
    proof {
        assert(r.deep_view() =~= v.deep_view().take(0));
    }
    while i < v.len()
        invariant
            i <= v.len(),
            r.deep_view() =~= v.deep_view().take(i as int),
        decreases v.len() - i,
    {
        let ghost rv0 = r@;
        proof {
            assert(r.deep_view().len() == i as int);
            assert(rv0.len() == i as int);
        }
        let elem = v[i].clone();
        let ghost ee = elem;
        r.push(elem);
        proof {
            assert(r@ == rv0.push(ee));
            assert forall|j: int| 0 <= j < r@.len() implies r.deep_view()[j] == v.deep_view().take(
                i as int + 1,
            )[j] by {
                if j < i as int {
                    assert(r@[j] == rv0[j]);
                    assert(rv0[j].deep_view() == v.deep_view().take(i as int)[j]);
                } else {
                    assert(r@[j] == ee);
                    assert(ee.deep_view() == v@[i as int].deep_view());
                }
            }
            assert(r.deep_view() =~= v.deep_view().take(i as int + 1));
        }
        i = i + 1;
    }
    proof {
        assert(v.deep_view().take(v.len() as int) =~= v.deep_view());
    }
    r
}

fn clone_strings(v: &Vec<String>) -> (r: Vec<String>)
    ensures
        r.deep_view() == v.deep_view(),
{
    let mut r: Vec<String> = Vec::new();
    let mut i: usize = 0;
    proof {
        assert(r.deep_view() =~= v.deep_view().take(0));
    }
    while i < v.len()
        invariant
            i <= v.len(),
            r.deep_view() =~= v.deep_view().take(i as int),
        decreases v.len() - i,
    {
        let ghost rv0 = r@;
        proof {
            assert(r.deep_view().len() == i as int);
            assert(rv0.len() == i as int);
        }
        let elem = v[i].clone();
        let ghost ee = elem;
        r.push(elem);
        proof {
            assert(r@ == rv0.push(ee));
            assert forall|j: int| 0 <= j < r@.len() implies r.deep_view()[j] == v.deep_view().take(
                i as int + 1,
            )[j] by {
                if j < i as int {
                    assert(r@[j] == rv0[j]);
                    assert(rv0[j].deep_view() == v.deep_view().take(i as int)[j]);
                } else {
                    assert(r@[j] == ee);
                    assert(ee.deep_view() == v@[i as int].deep_view());
                }
            }
            assert(r.deep_view() =~= v.deep_view().take(i as int + 1));
        }
        i = i + 1;
    }
    proof {
        assert(v.deep_view().take(v.len() as int) =~= v.deep_view());
    }
    r
}

fn clone_string_pairs(v: &Vec<(String, String)>) -> (r: Vec<(String, String)>)
    ensures
        r.deep_view() == v.deep_view(),
{
    let mut r: Vec<(String, String)> = Vec::new();
    let mut i: usize = 0;
    proof {
        assert(r.deep_view() =~= v.deep_view().take(0));
    }
    while i < v.len()
        invariant
            i <= v.len(),
            r.deep_view() =~= v.deep_view().take(i as int),
        decreases v.len() - i,
    {
        let ghost rv0 = r@;
        proof {
            assert(r.deep_view().len() == i as int);
            assert(rv0.len() == i as int);
        }
        let elem = (v[i].0.clone(), v[i].1.clone());
        let ghost ee = elem;
        r.push(elem);
        proof {
            assert(r@ == rv0.push(ee));
            assert forall|j: int| 0 <= j < r@.len() implies r.deep_view()[j] == v.deep_view().take(
                i as int + 1,
            )[j] by {
                if j < i as int {
                    assert(r@[j] == rv0[j]);
                    assert(rv0[j].deep_view() == v.deep_view().take(i as int)[j]);
                } else {
                    assert(r@[j] == ee);
                    assert(ee.deep_view() =~= v@[i as int].deep_view());
                }
            }
            assert(r.deep_view() =~= v.deep_view().take(i as int + 1));
        }
        i = i + 1;
    }
    proof {
        assert(v.deep_view().take(v.len() as int) =~= v.deep_view());
    }
    r
}

fn clone_pending(v: &Vec<(u64, String)>) -> (r: Vec<(u64, String)>)
    ensures
        r.deep_view() == v.deep_view(),
{
    let mut r: Vec<(u64, String)> = Vec::new();
    let mut i: usize = 0;
    proof {
        assert(r.deep_view() =~= v.deep_view().take(0));
    }
    while i < v.len()
        invariant
            i <= v.len(),
            r.deep_view() =~= v.deep_view().take(i as int),
        decreases v.len() - i,
    {
        let ghost rv0 = r@;
        proof {
            assert(r.deep_view().len() == i as int);
            assert(rv0.len() == i as int);
        }
        let elem = (v[i].0, v[i].1.clone());
        let ghost ee = elem;
        r.push(elem);
        proof {
            assert(r@ == rv0.push(ee));
            assert forall|j: int| 0 <= j < r@.len() implies r.deep_view()[j] == v.deep_view().take(
                i as int + 1,
            )[j] by {
                if j < i as int {
                    assert(r@[j] == rv0[j]);
                    assert(rv0[j].deep_view() == v.deep_view().take(i as int)[j]);
                } else {
                    assert(r@[j] == ee);
                    assert(ee.deep_view() =~= v@[i as int].deep_view());
                }
            }
            assert(r.deep_view() =~= v.deep_view().take(i as int + 1));
        }
        i = i + 1;
    }
    proof {
        assert(v.deep_view().take(v.len() as int) =~= v.deep_view());
    }
    r
}

/// A chain of adjacent key comparisons orders the whole registry.
proof fn lemma_adjacent_chain(l: Seq<OrderV>, i: int, j: int)
    requires
        forall|a: int|
            0 <= a < l.len() - 1 ==> lkey_lt(
                order_key(#[trigger] l[a]),
                order_key(l[a + 1]),
            ),
        0 <= i < j < l.len(),
    ensures
        lkey_lt(order_key(l[i]), order_key(l[j])),
    decreases j - i,
{
    if j == i + 1 {
    } else {
        lemma_adjacent_chain(l, i, j - 1);
        lemma_lkey_lt_trans(order_key(l[i]), order_key(l[j - 1]), order_key(l[j]));
    }
}

/// Decides [`listing_wf`] for one record.
fn check_listing_shape(o: &Order) -> (r: bool)
    ensures
        r == listing_wf(o.deep_view()),
{
    let type_ok = o.order_type == OrderType::LISTING;
    let owner_ok = o.owner == o.order_id.0;
    if !(type_ok && owner_ok && o.offer.len() == 1 && o.consideration.len() == 1) {
        return false;
    }
    let offer0 = &o.offer[0];
    let offer_ok = offer0.item_type == ItemType::CW721 && offer0.start_amount == 1
        && offer0.end_amount == 1 && (match &offer0.item {
        Asset::Nft(na) => na.contract_address == o.order_id.1 && (match &na.token_id {
            Some(t) => *t == o.order_id.2,
            None => false,
        }),
        _ => false,
    });
    if !offer_ok {
        return false;
    }
    proof {
        assert(o.deep_view().offer[0] == o.offer@[0].deep_view());
        assert(o.deep_view().offer[0] =~= (OfferItemV {
            item_type: ItemType::CW721,
            item: AssetV::Nft(
                NftAssetV {
                    contract_address: o.deep_view().order_id.1,
                    token_id: Some(o.deep_view().order_id.2),
                },
            ),
            start_amount: 1,
            end_amount: 1,
        }));
    }
    let cons0 = &o.consideration[0];
    let cons_ok = cons0.recipient == o.owner && (match &cons0.item {
        Asset::Native(na) => cons0.item_type == ItemType::NATIVE && cons0.start_amount == na.amount
            && cons0.end_amount == na.amount && na.amount > 0,
        Asset::Cw20(ca) => cons0.item_type == ItemType::CW20 && cons0.start_amount == ca.amount
            && cons0.end_amount == ca.amount && ca.amount > 0,
        Asset::Nft(_) => false,
    });
    proof {
        assert(o.deep_view().consideration[0] == o.consideration@[0].deep_view());
    }
    if !cons_ok {
        return false;
    }
    crate::structs::time_window_valid_exec(&o.start_time, &o.end_time)
}

/// Decides [`listings_wf`] for a whole registry image.
fn check_listings(v: &Vec<Order>) -> (r: bool)
    ensures
        r == listings_wf(v.deep_view()),
{
    let n = v.len();
    let mut i: usize = 0;
    while i < n
        invariant
            n == v.len(),
            i <= n,
            forall|j: int| 0 <= j < i ==> listing_wf(#[trigger] v.deep_view()[j]),
        decreases n - i,
    {
        if !check_listing_shape(&v[i]) {
            proof {
                assert(!listing_wf(v.deep_view()[i as int]));
            }
            return false;
        }
        i = i + 1;
    }
    let mut i: usize = 1;
    while i < n
        invariant
            n == v.len(),
            1 <= i || n == 0,
            i <= n || (n == 0 && i == 1),
            forall|j: int|
                0 <= j < i - 1 ==> lkey_lt(
                    order_key(#[trigger] v.deep_view()[j]),
                    order_key(v.deep_view()[j + 1]),
                ),
        decreases n - i,
    {
        let prev = &v[i - 1];
        let cur = &v[i];
        proof {
            assert(v.deep_view()[i - 1] == v@[i - 1].deep_view());
            assert(v.deep_view()[i as int] == v@[i as int].deep_view());
        }
        if !lkey_lt_exec(&prev.order_id.1, &prev.order_id.2, &cur.order_id.1, &cur.order_id.2) {
            proof {
                assert(!lkey_lt(
                    order_key(v.deep_view()[i - 1]),
                    order_key(v.deep_view()[i as int]),
                ));
                assert(!listings_ordered(v.deep_view()));
            }
            return false;
        }
        i = i + 1;
    }
    proof {
        assert forall|a: int, b: int|
            #![trigger order_key(v.deep_view()[a]), order_key(v.deep_view()[b])]
            0 <= a < b < v.deep_view().len() implies lkey_lt(
            order_key(v.deep_view()[a]),
            order_key(v.deep_view()[b]),
        ) by {
            lemma_adjacent_chain(v.deep_view(), a, b);
        }
    }
    true
}

/// Decides [`assoc_keys_unique`].
fn check_assoc_unique(v: &Vec<(String, String)>) -> (r: bool)
    ensures
        r == assoc_keys_unique(v.deep_view()),
{
    let n = v.len();
    let mut i: usize = 0;
    while i < n
        invariant
            n == v.len(),
            i <= n,
            forall|a: int, b: int|
                #![trigger v.deep_view()[a], v.deep_view()[b]]
                0 <= a < b < n && a < i ==> v.deep_view()[a].0 != v.deep_view()[b].0,
        decreases n - i,
    {
        let mut j: usize = i + 1;
        while j < n
            invariant
                n == v.len(),
                i < j || j == i + 1,
                i < n,
                j <= n,
                forall|b: int|
                    i < b < j ==> v.deep_view()[i as int].0 != (#[trigger] v.deep_view()[b]).0,
            decreases n - j,
        {
            proof {
                assert(v.deep_view()[i as int] == (v@[i as int].0@, v@[i as int].1@));
                assert(v.deep_view()[j as int] == (v@[j as int].0@, v@[j as int].1@));
            }
            if v[i].0 == v[j].0 {
                proof {
                    assert(v.deep_view()[i as int].0 == v.deep_view()[j as int].0);
                }
                return false;
            }
            j = j + 1;
        }
        i = i + 1;
    }
    true
}

/// Decides [`tokens_unique`].
fn check_tokens_unique(v: &Vec<String>) -> (r: bool)
    ensures
        r == tokens_unique(v.deep_view()),
{
    let n = v.len();
    let mut i: usize = 0;
    while i < n
        invariant
            n == v.len(),
            i <= n,
            forall|a: int, b: int|
                #![trigger v.deep_view()[a], v.deep_view()[b]]
                0 <= a < b < n && a < i ==> v.deep_view()[a] != v.deep_view()[b],
        decreases n - i,
    {
        let mut j: usize = i + 1;
        while j < n
            invariant
                n == v.len(),
                i < j || j == i + 1,
                i < n,
                j <= n,
                forall|b: int|
                    i < b < j ==> v.deep_view()[i as int] != (#[trigger] v.deep_view()[b]),
            decreases n - j,
        {
            proof {
                assert(v.deep_view()[i as int] == v@[i as int]@);
                assert(v.deep_view()[j as int] == v@[j as int]@);
            }
            if v[i] == v[j] {
                return false;
            }
            j = j + 1;
        }
        i = i + 1;
    }
    true
}

/// Decides [`pending_keys_unique`].
fn check_pending_unique(v: &Vec<(u64, String)>) -> (r: bool)
    ensures
        r == pending_keys_unique(v.deep_view()),
{
    let n = v.len();
    let mut i: usize = 0;
    while i < n
        invariant
            n == v.len(),
            i <= n,
            forall|a: int, b: int|
                #![trigger v.deep_view()[a], v.deep_view()[b]]
                0 <= a < b < n && a < i ==> v.deep_view()[a].0 != v.deep_view()[b].0,
        decreases n - i,
    {
        let mut j: usize = i + 1;
        while j < n
            invariant
                n == v.len(),
                i < j || j == i + 1,
                i < n,
                j <= n,
                forall|b: int|
                    i < b < j ==> v.deep_view()[i as int].0 != (#[trigger] v.deep_view()[b]).0,
            decreases n - j,
        {
            proof {
                assert(v.deep_view()[i as int] == (v@[i as int].0, v@[i as int].1@));
                assert(v.deep_view()[j as int] == (v@[j as int].0, v@[j as int].1@));
            }
            if v[i].0 == v[j].0 {
                return false;
            }
            j = j + 1;
        }
        i = i + 1;
    }
    true
}

impl MarketState {
    /// A plain copy of the state, for the host to persist.
    pub fn snapshot(&self) -> (r: StateSnapshot)
        ensures
            r.deep_view() == self@,
    {
        let r = StateSnapshot {
            config: self.config.clone(),
            listings: clone_orders(&self.listings),
            allowed_tokens: clone_strings(&self.allowed_tokens),
            collections: clone_string_pairs(&self.collections),
            pending_collections: clone_pending(&self.pending_collections),
            collection_id: self.collection_id,
        };
        proof {
            assert(r.deep_view() =~= self@);
        }
        r
    }

    /// Admits a persisted snapshot back into the engine, exactly when it
    /// satisfies the state invariant; malformed host data is rejected rather
    /// than trusted.
    pub fn restore(snapshot: StateSnapshot) -> (r: Option<MarketState>)
        ensures
            match r {
                Some(state) => state@ == snapshot.deep_view() && state_wf(state@),
                None => !state_wf(snapshot.deep_view()),
            },
    {
        if !check_listings(&snapshot.listings) {
            return None;
        }
        if !check_assoc_unique(&snapshot.collections) {
            return None;
        }
        if !check_pending_unique(&snapshot.pending_collections) {
            return None;
        }
        if !check_tokens_unique(&snapshot.allowed_tokens) {
            return None;
        }
        let state = MarketState {
            config: snapshot.config,
            listings: snapshot.listings,
            allowed_tokens: snapshot.allowed_tokens,
            collections: snapshot.collections,
            pending_collections: snapshot.pending_collections,
            collection_id: snapshot.collection_id,
        };
        proof {
            assert(state@ =~= snapshot.deep_view());
        }
        Some(state)
    }
}

} // verus!
