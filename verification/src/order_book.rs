//! The per-company, append-only lists of published orders.

use crate::types::AccountId;
use crate::types::Balance;
use crate::types::OrderForm;
use crate::types::OrderFormView;
use std::collections::HashMap;
use vstd::prelude::*;

verus! {

broadcast use vstd::std_specs::hash::group_hash_axioms;

/// The book as a mathematical value: each company that has published, with
/// its orders in the order of publication.
pub type BookView = Map<AccountId, Seq<OrderFormView>>;

/// The orders of `company`, oldest first; empty for a company that has
/// published nothing.
pub open spec fn orders_of(book: BookView, company: AccountId) -> Seq<OrderFormView> {
    if book.contains_key(company) {
        book[company]
    } else {
        Seq::empty()
    }
}

/// The order of `company` with the id `order_id`: the first one in the list
/// that carries it.
pub open spec fn order_at(book: BookView, company: AccountId, order_id: usize) -> Option<
    OrderFormView,
> {
    let list = orders_of(book, company);
    if exists|i: int| 0 <= i < list.len() && (#[trigger] list[i]).id == order_id {
        let first = choose|i: int|
            0 <= i < list.len() && (#[trigger] list[i]).id == order_id && forall|j: int|
                0 <= j < i ==> (#[trigger] list[j]).id != order_id;
        Some(list[first])
    } else {
        None
    }
}

/// The order that `company` gets when it publishes next.
pub open spec fn next_order(
    book: BookView,
    company: AccountId,
    name: Seq<u8>,
    reference_content: Seq<u8>,
    unit_price: Balance,
) -> OrderFormView {
    OrderFormView {
        id: orders_of(book, company).len() as usize,
        name,
        reference_content,
        unit_price,
    }
}

/// The book after `company` has published one more order: its list grows by
/// that order at the end, and nothing else changes.
pub open spec fn published(
    book: BookView,
    company: AccountId,
    name: Seq<u8>,
    reference_content: Seq<u8>,
    unit_price: Balance,
) -> BookView {
    book.insert(
        company,
        orders_of(book, company).push(
            next_order(book, company, name, reference_content, unit_price),
        ),
    )
}

/// Every order carries its position in its company's list as its id.
pub open spec fn well_numbered(book: BookView) -> bool {
    forall|company: AccountId, i: int|
        0 <= i < orders_of(book, company).len() ==> (#[trigger] orders_of(book, company)[i]).id
            == i
}

/// The views of the orders of one list.
pub open spec fn list_view(list: Seq<OrderForm>) -> Seq<OrderFormView> {
    list.map_values(|order: OrderForm| order@)
}

/// Under [`well_numbered`] the order with a given id is the one at that
/// position, and there is none beyond the end of the list.
pub proof fn lemma_order_at_is_positional(book: BookView, company: AccountId, order_id: usize)
    requires
        well_numbered(book),
    ensures
        order_at(book, company, order_id) == if order_id < orders_of(book, company).len() {
            Some(orders_of(book, company)[order_id as int])
        } else {
            None
        },
{
    let list = orders_of(book, company);
    if order_id < list.len() {
        assert(list[order_id as int].id == order_id);
        let first = choose|i: int|
            0 <= i < list.len() && (#[trigger] list[i]).id == order_id && forall|j: int|
                0 <= j < i ==> (#[trigger] list[j]).id != order_id;
        assert(0 <= order_id as int && (order_id as int) < list.len() && list[order_id as int].id
            == order_id && forall|j: int|
            0 <= j < order_id as int ==> (#[trigger] list[j]).id != order_id);
        assert(list[first].id == first);
    } else {
        assert forall|i: int| 0 <= i < list.len() implies (#[trigger] list[i]).id != order_id by {
            assert(list[i].id == i);
        }
    }
}

/// The published orders of every company.
pub struct OrderBook {
    lists: HashMap<AccountId, Vec<OrderForm>>,
}

impl View for OrderBook {
    type V = BookView;

    closed spec fn view(&self) -> BookView {
        Map::new(
            |company: AccountId| self.lists@.contains_key(company),
            |company: AccountId| list_view(self.lists@[company]@),
        )
    }
}

impl OrderBook {
    /// What every book that this module hands out satisfies.
    pub open spec fn wf(&self) -> bool {
        well_numbered(self@)
    }

    /// The book in which nobody has published.
    pub fn new() -> (book: OrderBook)
        ensures
            book.wf(),
            book@ == Map::<AccountId, Seq<OrderFormView>>::empty(),
    {
        let book = OrderBook { lists: HashMap::new() };
        assert(book@ =~= Map::<AccountId, Seq<OrderFormView>>::empty());
        book
    }

    /// Appends an order to the list of `company` and returns its id, which is
    /// the number of orders that the company had before. No earlier order of
    /// any company is changed or removed.
    pub fn publish(
        &mut self,
        company: AccountId,
        name: Vec<u8>,
        reference_content: Vec<u8>,
        unit_price: Balance,
    ) -> (id: usize)
        requires
            old(self).wf(),
        ensures
            final(self).wf(),
            id == orders_of(old(self)@, company).len(),
            final(self)@ == published(old(self)@, company, name@, reference_content@, unit_price),
    {
        let taken = self.lists.remove(&company);
        let mut list = match taken {
            Some(list) => list,
            None => Vec::new(),
        };
        let ghost before = list_view(list@);
        assert(before =~= orders_of(old(self)@, company));
        let id = list.len();
        let order = OrderForm { id, name, reference_content, unit_price };
        list.push(order);
        assert(list_view(list@) =~= before.push(order@));
        self.lists.insert(company, list);
        assert(self@ =~= published(old(self)@, company, name@, reference_content@, unit_price));
        proof {
            law_publish_keeps_numbering(
                old(self)@,
                company,
                name@,
                reference_content@,
                unit_price,
            );
        }
        id
    }

    /// Whether `company` has published at least one order.
    pub fn has_orders(&self, company: AccountId) -> (yes: bool)
        ensures
            yes == (orders_of(self@, company).len() > 0),
    {
        match self.lists.get(&company) {
            Some(list) => {
                assert(list_view(list@) =~= orders_of(self@, company));
                list.len() > 0
            },
            None => false,
        }
    }

    /// The orders of `company`, oldest first. A company that has published
    /// nothing has the empty list.
    pub fn list(&self, company: AccountId) -> (orders: Vec<OrderForm>)
        ensures
            list_view(orders@) == orders_of(self@, company),
    {
        match self.lists.get(&company) {
            Some(list) => {
                let orders = list.clone();
                assert(list_view(orders@) =~= list_view(list@));
                assert(list_view(list@) =~= orders_of(self@, company));
                orders
            },
            None => {
                let orders: Vec<OrderForm> = Vec::new();
                assert(list_view(orders@) =~= orders_of(self@, company));
                orders
            },
        }
    }

    /// The order of `company` with the id `order_id`, or `None` where the
    /// company has no such order.
    pub fn get(&self, company: AccountId, order_id: usize) -> (found: Option<&OrderForm>)
        requires
            self.wf(),
        ensures
            match found {
                Some(order) => order_at(self@, company, order_id) == Some(order@),
                None => order_at(self@, company, order_id) is None,
            },
    {
        proof {
            lemma_order_at_is_positional(self@, company, order_id);
        }
        match self.lists.get(&company) {
            Some(list) => {
                assert(list_view(list@) =~= orders_of(self@, company));
                if order_id < list.len() {
                    Some(&list[order_id])
                } else {
                    None
                }
            },
            None => None,
        }
    }
}

/// Publishing is append-only: the company's list grows by the new order at
/// its end, every earlier order of the company stays where and what it was,
/// and no other company's list changes.
pub proof fn law_publish_appends(
    book: BookView,
    company: AccountId,
    name: Seq<u8>,
    reference_content: Seq<u8>,
    unit_price: Balance,
)
    ensures
        ({
            let after = published(book, company, name, reference_content, unit_price);
            let before = orders_of(book, company);
            &&& orders_of(after, company) == before.push(
                next_order(book, company, name, reference_content, unit_price),
            )
            &&& orders_of(after, company).len() == before.len() + 1
            &&& forall|i: int|
                0 <= i < before.len() ==> (#[trigger] orders_of(after, company)[i]) == before[i]
            &&& forall|other: AccountId|
                other != company ==> #[trigger] orders_of(after, other) == orders_of(book, other)
        }),
{
}

/// Two publications of one company in a row get consecutive ids, the first
/// one the number of orders that the company had before; a company's first
/// two orders are numbered 0 and 1. The second publication leaves the first
/// order as it was.
pub proof fn law_publish_numbers_in_sequence(
    book: BookView,
    company: AccountId,
    first_name: Seq<u8>,
    first_content: Seq<u8>,
    first_price: Balance,
    second_name: Seq<u8>,
    second_content: Seq<u8>,
    second_price: Balance,
)
    requires
        orders_of(book, company).len() < usize::MAX,
    ensures
        ({
            let had = orders_of(book, company).len();
            let first = next_order(book, company, first_name, first_content, first_price);
            let once = published(book, company, first_name, first_content, first_price);
            let second = next_order(once, company, second_name, second_content, second_price);
            let twice = published(once, company, second_name, second_content, second_price);
            &&& first.id == had
            &&& second.id == had + 1
            &&& orders_of(twice, company)[had as int] == first
            &&& orders_of(twice, company)[had as int + 1] == second
        }),
{
}

/// Publishing keeps every order numbered by its position.
pub proof fn law_publish_keeps_numbering(
    book: BookView,
    company: AccountId,
    name: Seq<u8>,
    reference_content: Seq<u8>,
    unit_price: Balance,
)
    requires
        well_numbered(book),
        orders_of(book, company).len() <= usize::MAX,
    ensures
        well_numbered(published(book, company, name, reference_content, unit_price)),
{
    let after = published(book, company, name, reference_content, unit_price);
    assert forall|c: AccountId, i: int| 0 <= i < orders_of(after, c).len() implies (
    #[trigger] orders_of(after, c)[i]).id == i by {
        if c == company {
            if i < orders_of(book, company).len() {
                assert(orders_of(book, company)[i].id == i);
            }
        } else {
            assert(orders_of(after, c) == orders_of(book, c));
            assert(orders_of(book, c)[i].id == i);
        }
    }
}

} // verus!
