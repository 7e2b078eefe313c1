//! One sweep over the product list: what each observed product does to the
//! store and to the report, and what is to be done once all are seen.

use vstd::prelude::*;
use crate::danawa::ProductInfo;
use crate::price::{PriceData, PriceStorage, StorageError};
use crate::report::{
    change_block,
    difference_of,
    difference_text,
    format_change_block,
    format_price,
    price_difference,
    price_text,
};
use crate::timestamp::{chat_description, description_text, Timestamp};

verus! {

/// One product as a sweep sees it: its code, and what its page showed.
pub struct Observation {
    pub code: Seq<char>,
    pub name: Seq<char>,
    pub url: Seq<char>,
    pub price: PriceData,
}

/// What a sweep has come to: the prices it knows, the report so far, and by
/// how much each reported price moved.
pub struct SweepState {
    pub prices: Map<Seq<char>, PriceData>,
    pub message: Seq<char>,
    pub deltas: Seq<u32>,
}

/// The state in which a sweep over the stored `prices` begins.
pub open spec fn beginning(prices: Map<Seq<char>, PriceData>) -> SweepState {
    SweepState { prices, message: Seq::empty(), deltas: Seq::empty() }
}

/// The observation that `info`, found under `code`, amounts to.
pub open spec fn observed(code: Seq<char>, info: ProductInfo) -> Observation {
    Observation { code, name: info.product_name@, url: info.url@, price: info.price }
}

/// Whether one of the two prices differs.
pub open spec fn changed(prev: PriceData, now: PriceData) -> bool {
    prev.card_price != now.card_price || prev.cash_price != now.cash_price
}

/// The block that reports the change of a product from `prev` to `now`.
pub open spec fn product_block(
    name: Seq<char>,
    url: Seq<char>,
    prev: PriceData,
    now: PriceData,
) -> Seq<char> {
    change_block(
        name,
        url,
        price_text(now.card_price),
        difference_text(difference_of(prev.card_price, now.card_price)),
        price_text(now.cash_price),
        difference_text(difference_of(prev.cash_price, now.cash_price)),
    )
}

/// What one observation does to a sweep. The observed prices are stored in
/// any case. If they differ from the stored ones, the product's block is
/// added to the message, and the two movements to the deltas.
pub open spec fn step(state: SweepState, seen: Observation) -> SweepState {
    let prev = PriceStorage::lookup(state.prices, seen.code);
    let prices = state.prices.insert(seen.code, seen.price);
    if changed(prev, seen.price) {
        SweepState {
            prices,
            message: state.message + product_block(seen.name, seen.url, prev, seen.price),
            deltas: state.deltas.push(
                difference_of(prev.card_price, seen.price.card_price).spec_magnitude(),
            ).push(difference_of(prev.cash_price, seen.price.cash_price).spec_magnitude()),
        }
    } else {
        SweepState { prices, message: state.message, deltas: state.deltas }
    }
}

/// What a sweep comes to after the observations `seen`, taken in order.
pub open spec fn sweep_of(start: SweepState, seen: Seq<Observation>) -> SweepState
    decreases seen.len(),
{
    if seen.len() == 0 {
        start
    } else {
        step(sweep_of(start, seen.drop_last()), seen.last())
    }
}

/// The largest of the deltas, or zero if there are none.
pub open spec fn largest(deltas: Seq<u32>) -> u32
    decreases deltas.len(),
{
    if deltas.len() == 0 {
        0
    } else if deltas.last() > largest(deltas.drop_last()) {
        deltas.last()
    } else {
        largest(deltas.drop_last())
    }
}

/// Whether the message is to arrive without a notification: it is when no
/// price moved by 1000 won or more.
pub open spec fn quiet(deltas: Seq<u32>) -> bool {
    largest(deltas) < 1000
}

/// What is to be done at the end of a sweep. The actions are due one after
/// the other; when one fails, those after it are not to be done.
pub enum Action {
    /// Post `text` to the chat.
    SendMessage { text: String, disable_notification: bool },
    /// Write the store to where it is kept.
    SaveStore { store: PriceStorage },
    /// Set the chat's description to `text`.
    SetChatDescription { text: String },
}

/// An action by what it holds.
pub enum ActionView {
    SendMessage { text: Seq<char>, disable_notification: bool },
    SaveStore { prices: Map<Seq<char>, PriceData> },
    SetChatDescription { text: Seq<char> },
}

impl View for Action {
    type V = ActionView;

    open spec fn view(&self) -> ActionView {
        match self {
            Action::SendMessage { text, disable_notification } => ActionView::SendMessage {
                text: text@,
                disable_notification: *disable_notification,
            },
            Action::SaveStore { store } => ActionView::SaveStore { prices: store@ },
            Action::SetChatDescription { text } => ActionView::SetChatDescription { text: text@ },
        }
    }
}

/// The actions that end a sweep, in the order in which they are due: the
/// message is sent if there is one, then the store is saved, then the
/// description is set if that is asked for.
pub open spec fn plan_of(
    state: SweepState,
    update_chat_description: bool,
    started: Timestamp,
) -> Seq<ActionView> {
    let send = if state.message.len() > 0 {
        seq![
            ActionView::SendMessage {
                text: state.message,
                disable_notification: quiet(state.deltas),
            },
        ]
    } else {
        Seq::empty()
    };
    let describe = if update_chat_description {
        seq![ActionView::SetChatDescription { text: description_text(started) }]
    } else {
        Seq::empty()
    };
    send + seq![ActionView::SaveStore { prices: state.prices }] + describe
}

/// The deltas are quiet exactly when each of them is below 1000.
pub proof fn lemma_quiet_iff_all_small(deltas: Seq<u32>)
    ensures
        quiet(deltas) <==> forall|i: int| 0 <= i < deltas.len() ==> #[trigger] deltas[i] < 1000,
    decreases deltas.len(),
{
    if deltas.len() > 0 {
        let front = deltas.drop_last();
        lemma_quiet_iff_all_small(front);
        if quiet(deltas) {
            assert forall|i: int| 0 <= i < deltas.len() implies #[trigger] deltas[i] < 1000 by {
                if i < front.len() {
                    assert(front[i] == deltas[i]);
                }
            }
        }
        if forall|i: int| 0 <= i < deltas.len() ==> #[trigger] deltas[i] < 1000 {
            assert forall|i: int| 0 <= i < front.len() implies #[trigger] front[i] < 1000 by {
                assert(deltas[i] < 1000);
            }
            assert(deltas[deltas.len() - 1] < 1000);
        }
    }
}

/// Whether a message that reports movements of `deltas` is to arrive
/// without a notification: it is when the largest of them, or zero if there
/// are none, is below 1000, that is when each of them is.
pub fn disable_notification(deltas: &Vec<u32>) -> (disable: bool)
    ensures
        disable == quiet(deltas@),
        disable <==> forall|i: int| 0 <= i < deltas.len() ==> #[trigger] deltas[i] < 1000,
{
    let mut max: u32 = 0;
    let mut i: usize = 0;
    while i < deltas.len()
        invariant
            i <= deltas.len(),
            max == largest(deltas@.take(i as int)),
        decreases deltas.len() - i,
    {
        assert(deltas@.take(i + 1).drop_last() =~= deltas@.take(i as int));
        if deltas[i] > max {
            max = deltas[i];
        }
        i = i + 1;
    }
    proof {
        assert(deltas@.take(deltas.len() as int) =~= deltas@);
        lemma_quiet_iff_all_small(deltas@);
    }
    max < 1000
}

/// A sweep in progress. It owns the store from its beginning to its end.
pub struct Sweep {
    store: PriceStorage,
    message: String,
    deltas: Vec<u32>,
}

impl View for Sweep {
    type V = SweepState;

    closed spec fn view(&self) -> SweepState {
        SweepState { prices: self.store@, message: self.message@, deltas: self.deltas@ }
    }
}

impl Sweep {
    /// Begins a sweep over `store`, with nothing to report yet.
    pub fn new(store: PriceStorage) -> (sweep: Sweep)
        ensures
            sweep@ == beginning(store@),
    {
        Sweep { store, message: String::new(), deltas: Vec::new() }
    }

    /// Begins a sweep over the store as it was loaded, or over an empty store
    /// where it could not be loaded, whatever the reason.
    pub fn begin(loaded: Result<PriceStorage, StorageError>) -> (sweep: Sweep)
        ensures
            sweep@ == beginning(
                match loaded {
                    Ok(store) => store@,
                    Err(_) => Map::empty(),
                },
            ),
    {
        match loaded {
            Ok(store) => Sweep::new(store),
            Err(_) => Sweep::new(PriceStorage::new()),
        }
    }

    /// Takes in what the page of `product_code` showed.
    ///
    /// The observed prices replace the stored ones, changed or not. If one
    /// of them differs from what was stored, the product's block joins the
    /// end of the message and the two movements join the deltas, card
    /// before cash.
    pub fn record(&mut self, product_code: String, info: &ProductInfo)
        ensures
            final(self)@ == step(old(self)@, observed(product_code@, *info)),
    {
        let prev = self.store.get(product_code.as_str());
        let now = info.price;
        if prev.card_price != now.card_price || prev.cash_price != now.cash_price {
            let card_diff = price_difference(prev.card_price, now.card_price);
            let cash_diff = price_difference(prev.cash_price, now.cash_price);
            let card_price = format_price(now.card_price);
            let cash_price = format_price(now.cash_price);
            let block = format_change_block(
                info.product_name.as_str(),
                info.url.as_str(),
                card_price.as_str(),
                card_diff,
                cash_price.as_str(),
                cash_diff,
            );
            self.message.append(block.as_str());
            self.deltas.push(card_diff.magnitude());
            self.deltas.push(cash_diff.magnitude());
        }
        self.store.insert(product_code, now);
    }

    /// Ends the sweep and says what is left to do, in order: send the
    /// message, unless it is empty; save the store; and set the chat's
    /// description to the time `started`, if `update_chat_description` asks
    /// for it.
    pub fn finish(self, update_chat_description: bool, started: &Timestamp) -> (actions: Vec<
        Action,
    >)
        ensures
            actions@.map_values(|action: Action| action@) == plan_of(
                self@,
                update_chat_description,
                *started,
            ),
    {
        let ghost plan = plan_of(self@, update_chat_description, *started);
        let mut actions: Vec<Action> = Vec::new();
        if !self.message.as_str().is_empty() {
            let disable = disable_notification(&self.deltas);
            actions.push(Action::SendMessage { text: self.message, disable_notification: disable });
        }
        actions.push(Action::SaveStore { store: self.store });
        if update_chat_description {
            actions.push(Action::SetChatDescription { text: chat_description(started) });
        }
        assert(actions@.map_values(|action: Action| action@) =~= plan);
        actions
    }
}

/// The observations that a list of codes with what their pages showed
/// amounts to.
pub open spec fn observations(products: Seq<(String, ProductInfo)>) -> Seq<Observation> {
    products.map_values(|product: (String, ProductInfo)| observed(product.0@, product.1))
}

/// Sweeps over `products`, in order, starting from `store`.
pub fn sweep(store: PriceStorage, products: &Vec<(String, ProductInfo)>) -> (done: Sweep)
    ensures
        done@ == sweep_of(beginning(store@), observations(products@)),
{
    let ghost start = beginning(store@);
    let mut done = Sweep::new(store);
    let mut i: usize = 0;
    while i < products.len()
        invariant
            i <= products.len(),
            done@ == sweep_of(start, observations(products@.take(i as int))),
        decreases products.len() - i,
    {
        proof {
            let next = observations(products@.take(i + 1));
            assert(next.drop_last() =~= observations(products@.take(i as int)));
            assert(next.last() == observed(products@[i as int].0@, products@[i as int].1));
        }
        done.record(products[i].0.clone(), &products[i].1);
        i = i + 1;
    }
    assert(products@.take(products.len() as int) =~= products@);
    done
}

/// A block is never empty.
proof fn lemma_block_not_empty(name: Seq<char>, url: Seq<char>, prev: PriceData, now: PriceData)
    ensures
        product_block(name, url, prev, now).len() > 0,
{
    reveal_strlit("[");
}

/// A sweep takes its observations in one by one: sweeping over a list and
/// then over another is sweeping over the first followed by the second.
pub proof fn lemma_sweep_in_order(
    start: SweepState,
    first: Seq<Observation>,
    then: Seq<Observation>,
)
    ensures
        sweep_of(start, first + then) == sweep_of(sweep_of(start, first), then),
    decreases then.len(),
{
    if then.len() == 0 {
        assert(first + then =~= first);
    } else {
        lemma_sweep_in_order(start, first, then.drop_last());
        assert((first + then).drop_last() =~= first + then.drop_last());
        assert((first + then).last() == then.last());
    }
}

/// A sweep adds to the end of the message and of the deltas, and changes
/// nothing of what they held.
pub proof fn lemma_sweep_appends(start: SweepState, seen: Seq<Observation>)
    ensures
        start.message.is_prefix_of(sweep_of(start, seen).message),
        start.deltas.is_prefix_of(sweep_of(start, seen).deltas),
    decreases seen.len(),
{
    if seen.len() > 0 {
        let before = sweep_of(start, seen.drop_last());
        lemma_sweep_appends(start, seen.drop_last());
        assert(before.message.is_prefix_of(step(before, seen.last()).message));
        assert(before.deltas.is_prefix_of(step(before, seen.last()).deltas));
    }
}

/// A sweep leaves alone what is stored for a code that it does not come
/// across: the code is known afterwards exactly if it was before, and with
/// the same prices.
pub proof fn lemma_sweep_keeps_other_codes(
    start: SweepState,
    seen: Seq<Observation>,
    code: Seq<char>,
)
    requires
        forall|i: int| 0 <= i < seen.len() ==> (#[trigger] seen[i]).code != code,
    ensures
        sweep_of(start, seen).prices.contains_key(code) == start.prices.contains_key(code),
        start.prices.contains_key(code) ==> sweep_of(start, seen).prices[code]
            == start.prices[code],
    decreases seen.len(),
{
    if seen.len() > 0 {
        let front = seen.drop_last();
        assert forall|i: int| 0 <= i < front.len() implies (#[trigger] front[i]).code != code by {
            assert(seen[i].code != code);
        }
        lemma_sweep_keeps_other_codes(start, front, code);
        assert(seen[seen.len() - 1].code != code);
    }
}

/// After a sweep the store holds, for a code that it came across, the
/// prices observed for it, provided that every later observation of the
/// same code showed the same prices.
pub proof fn lemma_sweep_stores_observed(start: SweepState, seen: Seq<Observation>, i: int)
    requires
        0 <= i < seen.len(),
        forall|j: int|
            i < j < seen.len() && (#[trigger] seen[j]).code == seen[i].code ==> seen[j].price
                == seen[i].price,
    ensures
        sweep_of(start, seen).prices.contains_key(seen[i].code),
        sweep_of(start, seen).prices[seen[i].code] == seen[i].price,
    decreases seen.len(),
{
    if i < seen.len() - 1 {
        let front = seen.drop_last();
        assert forall|j: int|
            i < j < front.len() && (#[trigger] front[j]).code == front[i].code implies front[j].price
            == front[i].price by {
            assert(seen[j].code == seen[i].code);
        }
        lemma_sweep_stores_observed(start, front, i);
        let last = seen[seen.len() - 1];
        if last.code == seen[i].code {
            assert(last.price == seen[i].price);
        }
    }
}

/// A sweep that finds every product as the store has it changes nothing:
/// not the store, not the message and not the deltas.
pub proof fn lemma_sweep_of_known_prices(start: SweepState, seen: Seq<Observation>)
    requires
        forall|i: int|
            0 <= i < seen.len() ==> start.prices.contains_key((#[trigger] seen[i]).code)
                && start.prices[seen[i].code] == seen[i].price,
    ensures
        sweep_of(start, seen) == start,
    decreases seen.len(),
{
    if seen.len() > 0 {
        let front = seen.drop_last();
        assert forall|i: int| 0 <= i < front.len() implies start.prices.contains_key(
            (#[trigger] front[i]).code,
        ) && start.prices[front[i].code] == front[i].price by {
            assert(seen[i].code == front[i].code);
        }
        lemma_sweep_of_known_prices(start, front);
        let last = seen[seen.len() - 1];
        assert(start.prices.contains_key(last.code) && start.prices[last.code] == last.price);
        assert(start.prices.insert(last.code, last.price) =~= start.prices);
    }
}

/// A sweep in which no product shows other prices than the store gives for
/// it leaves the message and the deltas as they were, and every code with
/// the prices that the store gave for it.
proof fn lemma_sweep_without_change(start: SweepState, seen: Seq<Observation>)
    requires
        forall|i: int|
            0 <= i < seen.len() ==> !changed(
                PriceStorage::lookup(start.prices, (#[trigger] seen[i]).code),
                seen[i].price,
            ),
    ensures
        sweep_of(start, seen).message == start.message,
        sweep_of(start, seen).deltas == start.deltas,
        forall|code: Seq<char>| #[trigger]
            PriceStorage::lookup(sweep_of(start, seen).prices, code) == PriceStorage::lookup(
                start.prices,
                code,
            ),
    decreases seen.len(),
{
    if seen.len() > 0 {
        let front = seen.drop_last();
        assert forall|i: int| 0 <= i < front.len() implies !changed(
            PriceStorage::lookup(start.prices, (#[trigger] front[i]).code),
            front[i].price,
        ) by {
            assert(seen[i].code == front[i].code);
        }
        lemma_sweep_without_change(start, front);
        let last = seen[seen.len() - 1];
        let before = sweep_of(start, front);
        assert(!changed(PriceStorage::lookup(start.prices, last.code), last.price));
        assert(PriceStorage::lookup(before.prices, last.code) == PriceStorage::lookup(
            start.prices,
            last.code,
        ));
        assert forall|code: Seq<char>| #[trigger]
            PriceStorage::lookup(sweep_of(start, seen).prices, code) == PriceStorage::lookup(
                start.prices,
                code,
            ) by {
            assert(PriceStorage::lookup(before.prices, code) == PriceStorage::lookup(
                start.prices,
                code,
            ));
        }
    }
}

/// The same code was never observed with two different pairs of prices.
pub open spec fn consistent(seen: Seq<Observation>) -> bool {
    forall|i: int, j: int|
        0 <= i < seen.len() && 0 <= j < seen.len() && (#[trigger] seen[i]).code == (
        #[trigger] seen[j]).code ==> seen[i].price == seen[j].price
}

/// A sweep that comes across a product whose prices differ from the stored
/// ones has a message to send.
pub proof fn lemma_sweep_reports_change(prices: Map<Seq<char>, PriceData>, seen: Seq<Observation>)
    requires
        exists|i: int|
            0 <= i < seen.len() && changed(
                PriceStorage::lookup(prices, (#[trigger] seen[i]).code),
                seen[i].price,
            ),
    ensures
        sweep_of(beginning(prices), seen).message.len() > 0,
    decreases seen.len(),
{
    let start = beginning(prices);
    let front = seen.drop_last();
    let last = seen[seen.len() - 1];
    let before = sweep_of(start, front);
    if exists|i: int|
        0 <= i < front.len() && changed(
            PriceStorage::lookup(prices, (#[trigger] front[i]).code),
            front[i].price,
        ) {
        lemma_sweep_reports_change(prices, front);
        assert(step(before, last).message.len() >= before.message.len());
    } else {
        assert forall|i: int| 0 <= i < front.len() implies !changed(
            PriceStorage::lookup(start.prices, (#[trigger] front[i]).code),
            front[i].price,
        ) by {}
        lemma_sweep_without_change(start, front);
        let i = choose|i: int|
            0 <= i < seen.len() && changed(
                PriceStorage::lookup(prices, (#[trigger] seen[i]).code),
                seen[i].price,
            );
        if i < front.len() {
            assert(front[i].code == seen[i].code);
        }
        assert(i == seen.len() - 1);
        assert(PriceStorage::lookup(before.prices, last.code) == PriceStorage::lookup(
            prices,
            last.code,
        ));
        lemma_block_not_empty(
            last.name,
            last.url,
            PriceStorage::lookup(before.prices, last.code),
            last.price,
        );
    }
}

/// Sweeping again over what the first sweep left, with every product
/// showing the prices it showed before, reports nothing: the message stays
/// empty, so nothing is sent, and the store is saved as the first sweep
/// left it.
pub proof fn lemma_repeated_sweep_is_silent(
    prices: Map<Seq<char>, PriceData>,
    seen: Seq<Observation>,
    update_chat_description: bool,
    started: Timestamp,
)
    requires
        consistent(seen),
    ensures
        ({
            let first = sweep_of(beginning(prices), seen);
            let second = sweep_of(beginning(first.prices), seen);
            &&& second == beginning(first.prices)
            &&& second.message.len() == 0
            &&& plan_of(second, update_chat_description, started)[0] == (ActionView::SaveStore {
                prices: first.prices,
            })
        }),
{
    let first = sweep_of(beginning(prices), seen);
    assert forall|i: int| 0 <= i < seen.len() implies first.prices.contains_key(
        (#[trigger] seen[i]).code,
    ) && first.prices[seen[i].code] == seen[i].price by {
        lemma_sweep_stores_observed(beginning(prices), seen, i);
    }
    lemma_sweep_of_known_prices(beginning(first.prices), seen);
}

/// Of two sweeps in a row over products that show the same prices both
/// times, prices that differ from the stored ones for at least one of them,
/// the first has a message to send and the second has none.
pub proof fn lemma_unchanged_sweep_idempotent(
    prices: Map<Seq<char>, PriceData>,
    seen: Seq<Observation>,
)
    requires
        consistent(seen),
        exists|i: int|
            0 <= i < seen.len() && changed(
                PriceStorage::lookup(prices, (#[trigger] seen[i]).code),
                seen[i].price,
            ),
    ensures
        sweep_of(beginning(prices), seen).message.len() > 0,
        sweep_of(beginning(sweep_of(beginning(prices), seen).prices), seen).message.len() == 0,
{
    lemma_sweep_reports_change(prices, seen);
    lemma_repeated_sweep_is_silent(
        prices,
        seen,
        false,
        Timestamp { year: 0, month: 1, day: 1, hour: 0, minute: 0 },
    );
}

} // verus!
