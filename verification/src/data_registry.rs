//! The rows that link what a person has uploaded to the order it answers.

use crate::content_store::content_at;
use crate::content_store::ContentStore;
use crate::types::AccountId;
use crate::types::ContentKey;
use crate::types::DataMetadata;
use crate::types::DataMetadataView;
use crate::types::EscrowError;
use std::collections::HashMap;
use vstd::prelude::*;

verus! {

broadcast use vstd::std_specs::hash::group_hash_axioms;

/// The registry as a mathematical value: each person that has uploaded, with
/// the rows in the order in which they were appended.
pub type RegistryView = Map<AccountId, Seq<DataMetadataView>>;

/// The rows of `person`, oldest first; empty for a person that has uploaded
/// nothing.
pub open spec fn rows_of(registry: RegistryView, person: AccountId) -> Seq<DataMetadataView> {
    if registry.contains_key(person) {
        registry[person]
    } else {
        Seq::empty()
    }
}

/// Row `i` is the first of `rows` submitted against order `order_id` of
/// `company`.
pub open spec fn first_match(
    rows: Seq<DataMetadataView>,
    company: AccountId,
    order_id: usize,
    i: int,
) -> bool {
    &&& 0 <= i < rows.len()
    &&& rows[i].targets(company, order_id)
    &&& forall|j: int| 0 <= j < i ==> !(#[trigger] rows[j]).targets(company, order_id)
}

/// Where the first row against order `order_id` of `company` stands, if
/// there is one.
pub open spec fn find_index(rows: Seq<DataMetadataView>, company: AccountId, order_id: usize)
    -> Option<int> {
    if exists|i: int| first_match(rows, company, order_id, i) {
        Some(choose|i: int| first_match(rows, company, order_id, i))
    } else {
        None
    }
}

/// The row that `person` holds against order `order_id` of `company`: the
/// first one that matches.
pub open spec fn found_row(
    registry: RegistryView,
    person: AccountId,
    company: AccountId,
    order_id: usize,
) -> Option<DataMetadataView> {
    let rows = rows_of(registry, person);
    match find_index(rows, company, order_id) {
        Some(i) => Some(rows[i]),
        None => None,
    }
}

/// The registry after `person` has uploaded against order `order_id` of
/// `company` a payload that went under `content_key`: one row more at the
/// end of that person's rows.
pub open spec fn uploaded(
    registry: RegistryView,
    person: AccountId,
    name: Seq<u8>,
    company: AccountId,
    order_id: usize,
    content_key: ContentKey,
) -> RegistryView {
    registry.insert(
        person,
        rows_of(registry, person).push(
            DataMetadataView { name, target_company: company, order_id, content_key },
        ),
    )
}

/// The registry after `person` has replaced, in the row against order
/// `order_id` of `company`, the name and the content key. The row keeps its
/// place, its company and its order id.
pub open spec fn updated(
    registry: RegistryView,
    person: AccountId,
    name: Seq<u8>,
    company: AccountId,
    order_id: usize,
    content_key: ContentKey,
) -> RegistryView {
    let rows = rows_of(registry, person);
    match find_index(rows, company, order_id) {
        Some(i) => registry.insert(
            person,
            rows.update(i, DataMetadataView { name, content_key, ..rows[i] }),
        ),
        None => registry,
    }
}

/// No person holds two rows against the same order of the same company.
pub open spec fn unique_rows(registry: RegistryView) -> bool {
    forall|person: AccountId, i: int, j: int|
        #![trigger rows_of(registry, person)[i], rows_of(registry, person)[j]]
        0 <= i < j < rows_of(registry, person).len() ==> !rows_of(registry, person)[j].targets(
            rows_of(registry, person)[i].target_company,
            rows_of(registry, person)[i].order_id,
        )
}

/// Every row's content key is one that a store of `stored` entries has
/// handed out.
pub open spec fn keys_resolve(registry: RegistryView, stored: nat) -> bool {
    forall|person: AccountId, i: int|
        0 <= i < rows_of(registry, person).len() ==> (#[trigger] rows_of(
            registry,
            person,
        )[i]).content_key < stored
}

/// The views of the rows of one list.
pub open spec fn rows_view(rows: Seq<DataMetadata>) -> Seq<DataMetadataView> {
    rows.map_values(|row: DataMetadata| row@)
}

/// There is at most one first match.
pub proof fn lemma_first_match_unique(
    rows: Seq<DataMetadataView>,
    company: AccountId,
    order_id: usize,
    i: int,
    j: int,
)
    requires
        first_match(rows, company, order_id, i),
        first_match(rows, company, order_id, j),
    ensures
        i == j,
{
    if i < j {
        assert(!rows[i].targets(company, order_id));
    } else if j < i {
        assert(!rows[j].targets(company, order_id));
    }
}

/// A first match, once known, is what [`find_index`] gives.
pub proof fn lemma_find_index_is(
    rows: Seq<DataMetadataView>,
    company: AccountId,
    order_id: usize,
    i: int,
)
    requires
        first_match(rows, company, order_id, i),
    ensures
        find_index(rows, company, order_id) == Some(i),
{
    let chosen = choose|k: int| first_match(rows, company, order_id, k);
    lemma_first_match_unique(rows, company, order_id, i, chosen);
}

/// Where no row matches, [`find_index`] gives nothing.
pub proof fn lemma_find_index_none(rows: Seq<DataMetadataView>, company: AccountId, order_id: usize)
    requires
        forall|j: int| 0 <= j < rows.len() ==> !(#[trigger] rows[j]).targets(company, order_id),
    ensures
        find_index(rows, company, order_id) is None,
{
    assert forall|i: int| !first_match(rows, company, order_id, i) by {
        if 0 <= i < rows.len() {
            assert(!rows[i].targets(company, order_id));
        }
    }
}

/// An upload under a fresh key keeps every key resolvable in the store that
/// has grown by the payload.
pub proof fn lemma_upload_keeps_keys(
    registry: RegistryView,
    stored: nat,
    person: AccountId,
    name: Seq<u8>,
    company: AccountId,
    order_id: usize,
)
    requires
        keys_resolve(registry, stored),
        stored <= ContentKey::MAX,
    ensures
        keys_resolve(
            uploaded(registry, person, name, company, order_id, stored as ContentKey),
            stored + 1,
        ),
{
    let after = uploaded(registry, person, name, company, order_id, stored as ContentKey);
    assert forall|p: AccountId, i: int| 0 <= i < rows_of(after, p).len() implies (#[trigger] rows_of(
        after,
        p,
    )[i]).content_key < stored + 1 by {
        if p == person {
            if i < rows_of(registry, person).len() {
                assert(rows_of(registry, person)[i].content_key < stored);
            }
        } else {
            assert(rows_of(after, p) == rows_of(registry, p));
            assert(rows_of(registry, p)[i].content_key < stored);
        }
    }
}

/// An update under a fresh key keeps every key resolvable in the store that
/// has grown by the payload.
pub proof fn lemma_update_keeps_keys(
    registry: RegistryView,
    stored: nat,
    person: AccountId,
    name: Seq<u8>,
    company: AccountId,
    order_id: usize,
)
    requires
        keys_resolve(registry, stored),
        stored <= ContentKey::MAX,
    ensures
        keys_resolve(
            updated(registry, person, name, company, order_id, stored as ContentKey),
            stored + 1,
        ),
{
    let after = updated(registry, person, name, company, order_id, stored as ContentKey);
    assert forall|p: AccountId, i: int| 0 <= i < rows_of(after, p).len() implies (#[trigger] rows_of(
        after,
        p,
    )[i]).content_key < stored + 1 by {
        if p == person && find_index(rows_of(registry, person), company, order_id) is Some {
            let at = find_index(rows_of(registry, person), company, order_id).unwrap();
            if i != at {
                assert(rows_of(registry, person)[i].content_key < stored);
            }
        } else {
            assert(rows_of(after, p) == rows_of(registry, p));
            assert(rows_of(registry, p)[i].content_key < stored);
        }
    }
}

/// The row that a lookup finds is one of the person's rows, submitted
/// against the order that was asked for, and its key resolves where all
/// keys do.
pub proof fn lemma_found_row_resolves(
    registry: RegistryView,
    stored: nat,
    person: AccountId,
    company: AccountId,
    order_id: usize,
)
    requires
        keys_resolve(registry, stored),
        found_row(registry, person, company, order_id) is Some,
    ensures
        found_row(registry, person, company, order_id).unwrap().targets(company, order_id),
        found_row(registry, person, company, order_id).unwrap().content_key < stored,
{
    let rows = rows_of(registry, person);
    let at = find_index(rows, company, order_id).unwrap();
    assert(first_match(rows, company, order_id, at));
    assert(rows[at].content_key < stored);
}

/// Where the first row of `rows` against order `order_id` of `company`
/// stands.
fn position(rows: &Vec<DataMetadata>, company: AccountId, order_id: usize) -> (at: Option<usize>)
    ensures
        match at {
            Some(i) => find_index(rows_view(rows@), company, order_id) == Some(i as int),
            None => find_index(rows_view(rows@), company, order_id) is None,
        },
{
    let ghost views = rows_view(rows@);
    let mut k: usize = 0;
    while k < rows.len()
        invariant
            k <= rows.len(),
            views == rows_view(rows@),
            forall|j: int| 0 <= j < k ==> !(#[trigger] views[j]).targets(company, order_id),
        decreases rows.len() - k,
    {
        if rows[k].target_company == company && rows[k].order_id == order_id {
            proof {
                assert(views[k as int] == rows@[k as int]@);
                lemma_find_index_is(views, company, order_id, k as int);
            }
            return Some(k);
        }
        assert(views[k as int] == rows@[k as int]@);
        k += 1;
    }
    proof {
        lemma_find_index_none(views, company, order_id);
    }
    None
}

/// The uploaded rows of every person.
pub struct DataRegistry {
    rows: HashMap<AccountId, Vec<DataMetadata>>,
}

impl View for DataRegistry {
    type V = RegistryView;

    closed spec fn view(&self) -> RegistryView {
        Map::new(
            |person: AccountId| self.rows@.contains_key(person),
            |person: AccountId| rows_view(self.rows@[person]@),
        )
    }
}

impl DataRegistry {
    /// The registry in which nobody has uploaded.
    pub fn new() -> (registry: DataRegistry)
        ensures
            registry@ == Map::<AccountId, Seq<DataMetadataView>>::empty(),
    {
        let registry = DataRegistry { rows: HashMap::new() };
        assert(registry@ =~= Map::<AccountId, Seq<DataMetadataView>>::empty());
        registry
    }

    /// Stores `payload` in `store` and appends to the rows of `person` one
    /// that links the new content key to order `order_id` of
    /// `target_company`. Whether that company or order exists is not asked
    /// here: a row records an intent.
    pub fn upload(
        &mut self,
        store: &mut ContentStore,
        person: AccountId,
        name: Vec<u8>,
        payload: Vec<u8>,
        target_company: AccountId,
        order_id: usize,
    )
        ensures
            final(store)@ == old(store)@.push(payload@),
            final(self)@ == uploaded(
                old(self)@,
                person,
                name@,
                target_company,
                order_id,
                old(store)@.len() as ContentKey,
            ),
            unique_rows(old(self)@) && found_row(old(self)@, person, target_company, order_id)
                is None ==> unique_rows(final(self)@),
    {
        proof {
            if unique_rows(old(self)@) {
                law_rows_stay_unique(
                    old(self)@,
                    person,
                    name@,
                    target_company,
                    order_id,
                    old(store)@.len() as ContentKey,
                );
            }
        }
        let content_key = store.put(payload);
        let taken = self.rows.remove(&person);
        let mut list = match taken {
            Some(list) => list,
            None => Vec::new(),
        };
        let ghost before = rows_view(list@);
        assert(before =~= rows_of(old(self)@, person));
        let row = DataMetadata { name, target_company, order_id, content_key };
        list.push(row);
        assert(rows_view(list@) =~= before.push(row@));
        self.rows.insert(person, list);
        assert(self@ =~= uploaded(
            old(self)@,
            person,
            name@,
            target_company,
            order_id,
            content_key,
        ));
    }

    /// Replaces, in the row that `person` holds against order `order_id` of
    /// `target_company`, the name by `name` and the content by `payload`,
    /// which is stored under a new key. Without such a row the call fails
    /// with [`EscrowError::NotFound`] and neither the registry nor the store
    /// changes.
    pub fn update(
        &mut self,
        store: &mut ContentStore,
        person: AccountId,
        name: Vec<u8>,
        payload: Vec<u8>,
        target_company: AccountId,
        order_id: usize,
    ) -> (done: Result<(), EscrowError>)
        ensures
            done is Ok <==> found_row(old(self)@, person, target_company, order_id) is Some,
            done is Err ==> done == Err::<(), EscrowError>(EscrowError::NotFound),
            done is Err ==> final(self)@ == old(self)@ && final(store)@ == old(store)@,
            done is Ok ==> final(store)@ == old(store)@.push(payload@),
            done is Ok ==> final(self)@ == updated(
                old(self)@,
                person,
                name@,
                target_company,
                order_id,
                old(store)@.len() as ContentKey,
            ),
            unique_rows(old(self)@) ==> unique_rows(final(self)@),
    {
        proof {
            if unique_rows(old(self)@) {
                law_rows_stay_unique(
                    old(self)@,
                    person,
                    name@,
                    target_company,
                    order_id,
                    old(store)@.len() as ContentKey,
                );
            }
        }
        let at = match self.rows.get(&person) {
            Some(list) => {
                assert(rows_view(list@) =~= rows_of(self@, person));
                position(list, target_company, order_id)
            },
            None => {
                proof {
                    lemma_find_index_none(rows_of(self@, person), target_company, order_id);
                }
                None
            },
        };
        match at {
            None => Err(EscrowError::NotFound),
            Some(i) => {
                let content_key = store.put(payload);
                let taken = self.rows.remove(&person);
                let mut list = match taken {
                    Some(list) => list,
                    None => Vec::new(),
                };
                let ghost before = rows_view(list@);
                assert(before =~= rows_of(old(self)@, person));
                let row = DataMetadata { name, target_company, order_id, content_key };
                list.set(i, row);
                assert(rows_view(list@) =~= before.update(
                    i as int,
                    DataMetadataView { name: name@, content_key, ..before[i as int] },
                ));
                self.rows.insert(person, list);
                assert(self@ =~= updated(
                    old(self)@,
                    person,
                    name@,
                    target_company,
                    order_id,
                    content_key,
                ));
                Ok(())
            },
        }
    }

    /// The row that `person` holds against order `order_id` of `company`:
    /// the first match, or `None` where no row matches.
    pub fn find(&self, person: AccountId, company: AccountId, order_id: usize) -> (found: Option<
        &DataMetadata,
    >)
        ensures
            match found {
                Some(row) => found_row(self@, person, company, order_id) == Some(row@),
                None => found_row(self@, person, company, order_id) is None,
            },
    {
        match self.rows.get(&person) {
            Some(list) => {
                assert(rows_view(list@) =~= rows_of(self@, person));
                match position(list, company, order_id) {
                    Some(i) => Some(&list[i]),
                    None => None,
                }
            },
            None => {
                proof {
                    lemma_find_index_none(rows_of(self@, person), company, order_id);
                }
                None
            },
        }
    }
}

/// After an upload against an order for which the person held no row, a
/// lookup finds the new row, and its content key resolves in the store to
/// exactly the payload.
pub proof fn law_upload_is_found_and_resolves(
    registry: RegistryView,
    contents: Seq<Seq<u8>>,
    person: AccountId,
    name: Seq<u8>,
    payload: Seq<u8>,
    company: AccountId,
    order_id: usize,
)
    requires
        contents.len() <= ContentKey::MAX,
        found_row(registry, person, company, order_id) is None,
    ensures
        ({
            let key = contents.len() as ContentKey;
            let after = uploaded(registry, person, name, company, order_id, key);
            let row = DataMetadataView { name, target_company: company, order_id, content_key: key };
            &&& found_row(after, person, company, order_id) == Some(row)
            &&& content_at(contents.push(payload), row.content_key) == Some(payload)
        }),
{
    let key = contents.len() as ContentKey;
    let before = rows_of(registry, person);
    let after = uploaded(registry, person, name, company, order_id, key);
    let rows = rows_of(after, person);
    assert(rows == before.push(
        DataMetadataView { name, target_company: company, order_id, content_key: key },
    ));
    assert forall|j: int| 0 <= j < before.len() implies !(#[trigger] rows[j]).targets(
        company,
        order_id,
    ) by {
        if before[j].targets(company, order_id) {
            lemma_some_match_is_found(before, company, order_id, j);
        }
    }
    assert(first_match(rows, company, order_id, before.len() as int));
    lemma_find_index_is(rows, company, order_id, before.len() as int);
}

/// An upload appends: the person's earlier rows stay where and what they
/// were, so a row that a lookup found before is the one it finds after, and
/// nobody else's rows change.
pub proof fn law_upload_keeps_earlier_rows(
    registry: RegistryView,
    person: AccountId,
    name: Seq<u8>,
    company: AccountId,
    order_id: usize,
    content_key: ContentKey,
    asked_company: AccountId,
    asked_order: usize,
)
    ensures
        ({
            let after = uploaded(registry, person, name, company, order_id, content_key);
            let before = rows_of(registry, person);
            &&& rows_of(after, person).len() == before.len() + 1
            &&& forall|i: int|
                0 <= i < before.len() ==> (#[trigger] rows_of(after, person)[i]) == before[i]
            &&& forall|other: AccountId|
                other != person ==> #[trigger] rows_of(after, other) == rows_of(registry, other)
            &&& found_row(registry, person, asked_company, asked_order) is Some ==> found_row(
                after,
                person,
                asked_company,
                asked_order,
            ) == found_row(registry, person, asked_company, asked_order)
        }),
{
    let after = uploaded(registry, person, name, company, order_id, content_key);
    let before = rows_of(registry, person);
    let rows = rows_of(after, person);
    if found_row(registry, person, asked_company, asked_order) is Some {
        let at = find_index(before, asked_company, asked_order).unwrap();
        assert(first_match(before, asked_company, asked_order, at));
        assert forall|j: int| 0 <= j < at implies !(#[trigger] rows[j]).targets(
            asked_company,
            asked_order,
        ) by {
            assert(rows[j] == before[j]);
        }
        assert(rows[at] == before[at]);
        assert(first_match(rows, asked_company, asked_order, at));
        lemma_find_index_is(rows, asked_company, asked_order, at);
    }
}

/// A row that matches makes the lookup succeed.
proof fn lemma_some_match_is_found(
    rows: Seq<DataMetadataView>,
    company: AccountId,
    order_id: usize,
    at: int,
)
    requires
        0 <= at < rows.len(),
        rows[at].targets(company, order_id),
    ensures
        find_index(rows, company, order_id) is Some,
    decreases at,
{
    if forall|j: int| 0 <= j < at ==> !(#[trigger] rows[j]).targets(company, order_id) {
        assert(first_match(rows, company, order_id, at));
    } else {
        let earlier = choose|j: int| 0 <= j < at && (#[trigger] rows[j]).targets(company, order_id);
        lemma_some_match_is_found(rows, company, order_id, earlier);
    }
}

/// An update of an existing row replaces its name and content key and
/// nothing else: the row keeps its place, its company and its order id, a
/// lookup finds the replaced row, and every other row of anybody stays as
/// it was.
pub proof fn law_update_replaces_in_place(
    registry: RegistryView,
    person: AccountId,
    name: Seq<u8>,
    company: AccountId,
    order_id: usize,
    content_key: ContentKey,
)
    requires
        found_row(registry, person, company, order_id) is Some,
    ensures
        ({
            let after = updated(registry, person, name, company, order_id, content_key);
            let before = rows_of(registry, person);
            let at = find_index(before, company, order_id).unwrap();
            &&& 0 <= at < before.len()
            &&& rows_of(after, person).len() == before.len()
            &&& rows_of(after, person)[at] == (DataMetadataView {
                name,
                target_company: company,
                order_id,
                content_key,
            })
            &&& rows_of(after, person)[at].target_company == before[at].target_company
            &&& rows_of(after, person)[at].order_id == before[at].order_id
            &&& forall|i: int|
                0 <= i < before.len() && i != at ==> (#[trigger] rows_of(after, person)[i])
                    == before[i]
            &&& forall|other: AccountId|
                other != person ==> #[trigger] rows_of(after, other) == rows_of(registry, other)
            &&& found_row(after, person, company, order_id) == Some(rows_of(after, person)[at])
        }),
{
    let after = updated(registry, person, name, company, order_id, content_key);
    let before = rows_of(registry, person);
    let at = find_index(before, company, order_id).unwrap();
    let rows = rows_of(after, person);
    assert(first_match(before, company, order_id, at));
    assert forall|j: int| 0 <= j < at implies !(#[trigger] rows[j]).targets(company, order_id) by {
        assert(rows[j] == before[j]);
    }
    assert(first_match(rows, company, order_id, at));
    lemma_find_index_is(rows, company, order_id, at);
}

/// An update for an order against which the person holds no row changes
/// nothing.
pub proof fn law_update_without_row_changes_nothing(
    registry: RegistryView,
    person: AccountId,
    name: Seq<u8>,
    company: AccountId,
    order_id: usize,
    content_key: ContentKey,
)
    requires
        found_row(registry, person, company, order_id) is None,
    ensures
        updated(registry, person, name, company, order_id, content_key) == registry,
{
}

/// Rows stay unique per person, company and order under an update, and
/// under an upload against an order for which the person held no row.
pub proof fn law_rows_stay_unique(
    registry: RegistryView,
    person: AccountId,
    name: Seq<u8>,
    company: AccountId,
    order_id: usize,
    content_key: ContentKey,
)
    requires
        unique_rows(registry),
    ensures
        unique_rows(updated(registry, person, name, company, order_id, content_key)),
        found_row(registry, person, company, order_id) is None ==> unique_rows(
            uploaded(registry, person, name, company, order_id, content_key),
        ),
{
    let before = rows_of(registry, person);
    let changed = updated(registry, person, name, company, order_id, content_key);
    assert forall|p: AccountId, i: int, j: int|
        0 <= i < j < rows_of(changed, p).len() implies !(#[trigger] rows_of(changed, p)[j]).targets(
        (#[trigger] rows_of(changed, p)[i]).target_company,
        rows_of(changed, p)[i].order_id,
    ) by {
        if p == person && find_index(before, company, order_id) is Some {
            let at = find_index(before, company, order_id).unwrap();
            assert(first_match(before, company, order_id, at));
            assert(!before[j].targets(before[i].target_company, before[i].order_id));
        } else {
            assert(rows_of(changed, p) == rows_of(registry, p));
            assert(!rows_of(registry, p)[j].targets(
                rows_of(registry, p)[i].target_company,
                rows_of(registry, p)[i].order_id,
            ));
        }
    }
    if found_row(registry, person, company, order_id) is None {
        let grown = uploaded(registry, person, name, company, order_id, content_key);
        assert forall|p: AccountId, i: int, j: int|
            0 <= i < j < rows_of(grown, p).len() implies !(#[trigger] rows_of(grown, p)[j]).targets(
            (#[trigger] rows_of(grown, p)[i]).target_company,
            rows_of(grown, p)[i].order_id,
        ) by {
            if p == person {
                if j < before.len() {
                    assert(!before[j].targets(before[i].target_company, before[i].order_id));
                } else {
                    if before[i].targets(company, order_id) {
                        lemma_some_match_is_found(before, company, order_id, i);
                    }
                }
            } else {
                assert(rows_of(grown, p) == rows_of(registry, p));
                assert(!rows_of(registry, p)[j].targets(
                    rows_of(registry, p)[i].target_company,
                    rows_of(registry, p)[i].order_id,
                ));
            }
        }
    }
}

/// Under unique rows the row that a lookup finds is the only one that the
/// person holds against that order.
pub proof fn law_found_row_is_the_only_match(
    registry: RegistryView,
    person: AccountId,
    company: AccountId,
    order_id: usize,
    i: int,
)
    requires
        unique_rows(registry),
        0 <= i < rows_of(registry, person).len(),
        rows_of(registry, person)[i].targets(company, order_id),
    ensures
        find_index(rows_of(registry, person), company, order_id) == Some(i),
{
    let rows = rows_of(registry, person);
    assert forall|j: int| 0 <= j < i implies !(#[trigger] rows[j]).targets(company, order_id) by {
        assert(!rows[i].targets(rows[j].target_company, rows[j].order_id));
    }
    assert(first_match(rows, company, order_id, i));
    lemma_find_index_is(rows, company, order_id, i);
}

} // verus!
