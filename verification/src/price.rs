//! The price store: the pair of prices last seen for each product code.

use vstd::prelude::*;

verus! {

/// The card price and the cash price of one product; either may be unknown.
#[derive(Clone, Copy, Debug, PartialEq, Eq, Structural)]
pub struct PriceData {
    pub card_price: Option<i32>,
    pub cash_price: Option<i32>,
}

impl PriceData {
    /// The pair in which both prices are unknown.
    pub open spec fn unknown() -> PriceData {
        PriceData { card_price: None, cash_price: None }
    }
}

impl Default for PriceData {
    fn default() -> (data: PriceData)
        ensures
            data == PriceData::unknown(),
    {
        PriceData { card_price: None, cash_price: None }
    }
}

/// The mapping that a list of entries stands for: each code is mapped to the
/// prices of the last entry that names it.
pub open spec fn map_of(entries: Seq<(String, PriceData)>) -> Map<Seq<char>, PriceData>
    decreases entries.len(),
{
    if entries.len() == 0 {
        Map::empty()
    } else {
        map_of(entries.drop_last()).insert(entries.last().0@, entries.last().1)
    }
}

/// No two entries of the list name the same code.
pub open spec fn distinct_codes(entries: Seq<(String, PriceData)>) -> bool {
    forall|i: int, j: int| 0 <= i < j < entries.len() ==> entries[i].0@ != entries[j].0@
}

/// The codes that `map_of` knows are those that some entry names.
pub proof fn lemma_map_of_domain(entries: Seq<(String, PriceData)>, code: Seq<char>)
    ensures
        map_of(entries).contains_key(code) <==> exists|i: int|
            0 <= i < entries.len() && (#[trigger] entries[i]).0@ == code,
    decreases entries.len(),
{
    if entries.len() > 0 {
        let front = entries.drop_last();
        lemma_map_of_domain(front, code);
        if map_of(entries).contains_key(code) {
            if entries.last().0@ == code {
                assert(entries[entries.len() - 1].0@ == code);
            } else {
                let i = choose|i: int| 0 <= i < front.len() && (#[trigger] front[i]).0@ == code;
                assert(entries[i].0@ == code);
            }
        }
        if exists|i: int| 0 <= i < entries.len() && (#[trigger] entries[i]).0@ == code {
            let i = choose|i: int| 0 <= i < entries.len() && (#[trigger] entries[i]).0@ == code;
            if i < front.len() {
                assert(front[i].0@ == code);
            }
        }
    }
}

/// In a list without repeated codes, each entry's prices are what its code is
/// mapped to.
pub proof fn lemma_map_of_entry(entries: Seq<(String, PriceData)>, i: int)
    requires
        distinct_codes(entries),
        0 <= i < entries.len(),
    ensures
        map_of(entries).contains_key(entries[i].0@),
        map_of(entries)[entries[i].0@] == entries[i].1,
    decreases entries.len(),
{
    if i < entries.len() - 1 {
        let front = entries.drop_last();
        assert(distinct_codes(front)) by {
            assert forall|a: int, b: int| 0 <= a < b < front.len() implies front[a].0@
                != front[b].0@ by {
                assert(entries[a].0@ != entries[b].0@);
            }
        }
        lemma_map_of_entry(front, i);
        assert(entries[i].0@ != entries[entries.len() - 1].0@);
    }
}

/// Whether every entry of `a` is also in `b`, by code and prices.
pub open spec fn listed_in(a: Seq<(String, PriceData)>, b: Seq<(String, PriceData)>) -> bool {
    forall|i: int|
        0 <= i < a.len() ==> exists|j: int|
            0 <= j < b.len() && (#[trigger] b[j]).0@ == (#[trigger] a[i]).0@ && b[j].1 == a[i].1
}

/// The order of a listing does not matter: two listings without repeated
/// codes that hold the same entries stand for the same mapping.
pub proof fn lemma_map_of_any_order(a: Seq<(String, PriceData)>, b: Seq<(String, PriceData)>)
    requires
        distinct_codes(a),
        distinct_codes(b),
        listed_in(a, b),
        listed_in(b, a),
    ensures
        map_of(a) == map_of(b),
{
    assert forall|code: Seq<char>| #[trigger]
        map_of(a).dom().contains(code) implies map_of(b).dom().contains(code) && map_of(b)[code]
        == map_of(a)[code] by {
        lemma_map_of_domain(a, code);
        let i = choose|i: int| 0 <= i < a.len() && (#[trigger] a[i]).0@ == code;
        let j = choose|j: int|
            0 <= j < b.len() && (#[trigger] b[j]).0@ == (#[trigger] a[i]).0@ && b[j].1 == a[i].1;
        lemma_map_of_entry(a, i);
        lemma_map_of_entry(b, j);
    }
    assert forall|code: Seq<char>| #[trigger]
        map_of(b).dom().contains(code) implies map_of(a).dom().contains(code) by {
        lemma_map_of_domain(b, code);
        let j = choose|j: int| 0 <= j < b.len() && (#[trigger] b[j]).0@ == code;
        let i = choose|i: int|
            0 <= i < a.len() && (#[trigger] a[i]).0@ == (#[trigger] b[j]).0@ && a[i].1 == b[j].1;
        lemma_map_of_entry(a, i);
    }
    assert(map_of(a) =~= map_of(b));
}

/// Replacing the prices of entry `i`, under a code that reads the same,
/// is an insertion into the mapping and repeats no code.
proof fn lemma_map_of_replace(entries: Seq<(String, PriceData)>, i: int, entry: (String, PriceData))
    requires
        distinct_codes(entries),
        0 <= i < entries.len(),
        entry.0@ == entries[i].0@,
    ensures
        distinct_codes(entries.update(i, entry)),
        map_of(entries.update(i, entry)) == map_of(entries).insert(entry.0@, entry.1),
    decreases entries.len(),
{
    let replaced = entries.update(i, entry);
    assert(distinct_codes(replaced)) by {
        assert forall|a: int, b: int| 0 <= a < b < replaced.len() implies replaced[a].0@
            != replaced[b].0@ by {
            assert(entries[a].0@ != entries[b].0@);
        }
    }
    let front = entries.drop_last();
    if i == entries.len() - 1 {
        assert(replaced.drop_last() =~= front);
        assert(map_of(replaced) =~= map_of(entries).insert(entry.0@, entry.1));
    } else {
        assert(distinct_codes(front)) by {
            assert forall|a: int, b: int| 0 <= a < b < front.len() implies front[a].0@
                != front[b].0@ by {
                assert(entries[a].0@ != entries[b].0@);
            }
        }
        lemma_map_of_replace(front, i, entry);
        assert(replaced.drop_last() =~= front.update(i, entry));
        assert(replaced.last() == entries.last());
        assert(entries[i].0@ != entries[entries.len() - 1].0@);
        assert(map_of(replaced) =~= map_of(entries).insert(entry.0@, entry.1));
    }
}

/// The index of the entry that names `code`, if there is one.
fn position(entries: &Vec<(String, PriceData)>, code: &String) -> (found: Option<usize>)
    ensures
        match found {
            Some(i) => i < entries.len() && entries@[i as int].0@ == code@,
            None => forall|j: int| 0 <= j < entries.len() ==> (#[trigger] entries@[j]).0@ != code@,
        },
{
    let mut i: usize = 0;
    while i < entries.len()
        invariant
            i <= entries.len(),
            forall|j: int| 0 <= j < i ==> (#[trigger] entries@[j]).0@ != code@,
        decreases entries.len() - i,
    {
        if entries[i].0 == *code {
            return Some(i);
        }
        i = i + 1;
    }
    None
}

/// The last observed prices, by product code.
///
/// Codes are kept without repetition, so the store holds one entry for each
/// code it knows.
pub struct PriceStorage {
    entries: Vec<(String, PriceData)>,
}

impl View for PriceStorage {
    type V = Map<Seq<char>, PriceData>;

    closed spec fn view(&self) -> Map<Seq<char>, PriceData> {
        map_of(self.entries@)
    }
}

impl PriceStorage {
    #[verifier::type_invariant]
    spec fn well_formed(self) -> bool {
        distinct_codes(self.entries@)
    }

    /// The prices that the mapping `prices` gives for `code`: the stored
    /// pair, or two unknowns where the code is absent.
    pub open spec fn lookup(prices: Map<Seq<char>, PriceData>, code: Seq<char>) -> PriceData {
        if prices.contains_key(code) {
            prices[code]
        } else {
            PriceData::unknown()
        }
    }

    /// The store that knows no code.
    pub fn new() -> (storage: PriceStorage)
        ensures
            storage@ == Map::<Seq<char>, PriceData>::empty(),
    {
        PriceStorage { entries: Vec::new() }
    }

    /// The prices stored for `code`, or two unknowns if there are none.
    pub fn get(&self, code: &str) -> (data: PriceData)
        ensures
            data == Self::lookup(self@, code@),
    {
        proof {
            use_type_invariant(self);
            lemma_map_of_domain(self.entries@, code@);
        }
        let key = code.to_owned();
        match position(&self.entries, &key) {
            Some(i) => {
                proof {
                    lemma_map_of_entry(self.entries@, i as int);
                }
                self.entries[i].1
            },
            None => PriceData::default(),
        }
    }

    /// Stores `new_data` for `code`, in place of whatever was stored for it.
    pub fn insert(&mut self, code: String, new_data: PriceData)
        ensures
            final(self)@ == old(self)@.insert(code@, new_data),
    {
        proof {
            use_type_invariant(&*self);
        }
        let found = position(&self.entries, &code);
        let mut entries: Vec<(String, PriceData)> = Vec::new();
        std::mem::swap(&mut self.entries, &mut entries);
        match found {
            Some(i) => {
                proof {
                    lemma_map_of_replace(entries@, i as int, (code, new_data));
                }
                entries[i] = (code, new_data);
            },
            None => {
                entries.push((code, new_data));
                proof {
                    assert(entries@.drop_last() =~= old(self).entries@);
                }
            },
        }
        self.entries = entries;
    }

    /// Every code of the store with its prices, each code once.
    pub fn entries(&self) -> (listing: Vec<(String, PriceData)>)
        ensures
            distinct_codes(listing@),
            map_of(listing@) == self@,
    {
        proof {
            use_type_invariant(self);
        }
        let mut listing: Vec<(String, PriceData)> = Vec::new();
        let mut i: usize = 0;
        while i < self.entries.len()
            invariant
                i <= self.entries.len(),
                listing@ == self.entries@.take(i as int),
            decreases self.entries.len() - i,
        {
            listing.push((self.entries[i].0.clone(), self.entries[i].1));
            assert(self.entries@.take(i + 1) =~= self.entries@.take(i as int).push(
                self.entries@[i as int],
            ));
            i = i + 1;
        }
        assert(self.entries@.take(self.entries.len() as int) =~= self.entries@);
        listing
    }

    /// The store that results from inserting the entries of `listing` one
    /// after the other into an empty store.
    pub fn from_entries(listing: Vec<(String, PriceData)>) -> (storage: PriceStorage)
        ensures
            storage@ == map_of(listing@),
    {
        let mut storage = PriceStorage::new();
        let mut i: usize = 0;
        while i < listing.len()
            invariant
                i <= listing.len(),
                storage@ == map_of(listing@.take(i as int)),
            decreases listing.len() - i,
        {
            assert(listing@.take(i + 1).drop_last() =~= listing@.take(i as int));
            storage.insert(listing[i].0.clone(), listing[i].1);
            i = i + 1;
        }
        assert(listing@.take(listing.len() as int) =~= listing@);
        storage
    }
}

impl Default for PriceStorage {
    fn default() -> (storage: PriceStorage)
        ensures
            storage@ == Map::<Seq<char>, PriceData>::empty(),
    {
        PriceStorage::new()
    }
}

/// Why the store could not be read or written. Each variant carries the
/// underlying failure as text.
#[derive(Debug)]
pub enum StorageError {
    Io(String),
    Serialize(String),
    Deserialize(String),
}

impl StorageError {
    /// The line that `message` produces.
    pub open spec fn message_text(&self) -> Seq<char> {
        match self {
            StorageError::Io(e) => "Error during I/O: "@ + e@,
            StorageError::Serialize(e) => "Error serializing data: "@ + e@,
            StorageError::Deserialize(e) => "Error deserializing data: "@ + e@,
        }
    }

    /// A one-line description of the failure.
    pub fn message(&self) -> (text: String)
        ensures
            text@ == self.message_text(),
    {
        match self {
            StorageError::Io(e) => String::from_str("Error during I/O: ").concat(e.as_str()),
            StorageError::Serialize(e) => String::from_str("Error serializing data: ").concat(
                e.as_str(),
            ),
            StorageError::Deserialize(e) => String::from_str("Error deserializing data: ").concat(
                e.as_str(),
            ),
        }
    }
}

} // verus!
